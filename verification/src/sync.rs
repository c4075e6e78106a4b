//! The synchronisation engine: which declared packages have to be
//! installed or updated.

use crate::config::DesiredConfig;
use crate::error::{PackageFailure, SyncError};
use crate::name_map::NameMap;
use crate::names::{
    lemma_listed_before_end, lemma_listed_before_step, lemma_name_lt_asymmetric,
    lemma_name_lt_irreflexive, lemma_name_lt_total, listed_before, name_lt, strictly_sorted,
};
use crate::package::Package;
use crate::records::{InstallSet, InstalledState, ResolvedTargets};
use crate::version::{version_lt, Version};
use vstd::prelude::*;

verus! {

/// Whether what is installed of a package falls short of its target: the
/// package is not installed, or the installed version is strictly before
/// the target.
pub open spec fn outdated(
    installed: Map<Seq<char>, Version>,
    resolved: Map<Seq<char>, Version>,
    name: Seq<char>,
) -> bool {
    !installed.contains_key(name) || version_lt(installed[name]@, resolved[name]@)
}

/// Whether a package in effect lacks a target version.
pub open spec fn lacks_resolution(
    desired: DesiredConfig,
    resolved: Map<Seq<char>, Version>,
    name: Seq<char>,
) -> bool {
    desired.is_effective(name) && !resolved.contains_key(name)
}

/// Whether a package has to be installed or updated: it is in effect and
/// what is installed of it falls short of its target.
pub open spec fn needs_install(
    desired: DesiredConfig,
    resolved: Map<Seq<char>, Version>,
    installed: Map<Seq<char>, Version>,
    name: Seq<char>,
) -> bool {
    desired.is_effective(name) && outdated(installed, resolved, name)
}

/// Whether `r` is what synchronisation owes for the configuration, the
/// targets and the installed record: the packages that have to be
/// installed, each as it is declared, or the failure over the first
/// package in effect, in the order of the names, that has no target.
pub open spec fn is_synchronization(
    desired: DesiredConfig,
    resolved: Map<Seq<char>, Version>,
    installed: Map<Seq<char>, Version>,
    r: Result<InstallSet, PackageFailure>,
) -> bool {
    match r {
        Ok(set) => {
            &&& forall|name: Seq<char>| !lacks_resolution(desired, resolved, name)
            &&& forall|name: Seq<char>| #[trigger]
                set@.contains_key(name) <==> needs_install(desired, resolved, installed, name)
            &&& forall|name: Seq<char>| #[trigger]
                set@.contains_key(name) ==> set@[name]@ == desired.packages@[name]@
        },
        Err(failure) => {
            &&& failure.error == SyncError::MissingResolution
            &&& lacks_resolution(desired, resolved, failure.package@)
            &&& forall|name: Seq<char>|
                lacks_resolution(desired, resolved, name) ==> !name_lt(name, failure.package@)
        },
    }
}

/// Where every declared package is installed in a version that is not
/// before its target, synchronisation gives the empty set.
pub proof fn lemma_satisfied_installs_nothing(
    desired: DesiredConfig,
    resolved: Map<Seq<char>, Version>,
    installed: Map<Seq<char>, Version>,
    r: Result<InstallSet, PackageFailure>,
)
    requires
        forall|name: Seq<char>| #[trigger]
            desired.packages@.contains_key(name) ==> installed.contains_key(name)
                && resolved.contains_key(name) && !version_lt(installed[name]@, resolved[name]@),
        is_synchronization(desired, resolved, installed, r),
    ensures
        r is Ok,
        r->Ok_0@ == Map::<Seq<char>, Package>::empty(),
{
    match r {
        Ok(set) => {
            assert forall|name: Seq<char>| !set@.contains_key(name) by {
                if set@.contains_key(name) {
                    assert(needs_install(desired, resolved, installed, name));
                    assert(desired.packages@.contains_key(name));
                }
            }
            assert(set@ =~= Map::<Seq<char>, Package>::empty());
        },
        Err(failure) => {
            assert(desired.packages@.contains_key(failure.package@));
        },
    }
}

/// With both toggles off no package is in effect: whatever the targets
/// and whatever is installed, synchronisation gives the empty set, and no
/// missing target makes it fail.
pub proof fn lemma_toggles_off_installs_nothing(
    desired: DesiredConfig,
    resolved: Map<Seq<char>, Version>,
    installed: Map<Seq<char>, Version>,
    r: Result<InstallSet, PackageFailure>,
)
    requires
        !desired.update_self,
        !desired.update_others,
        is_synchronization(desired, resolved, installed, r),
    ensures
        r is Ok,
        r->Ok_0@ == Map::<Seq<char>, Package>::empty(),
{
    match r {
        Ok(set) => {
            assert forall|name: Seq<char>| !set@.contains_key(name) by {
                if set@.contains_key(name) {
                    assert(needs_install(desired, resolved, installed, name));
                }
            }
            assert(set@ =~= Map::<Seq<char>, Package>::empty());
        },
        Err(failure) => {},
    }
}

/// Synchronisation is a function of its three inputs: two outcomes for the
/// same inputs succeed or fail together, name the same packages, declare
/// each of them alike, and fail over the same package.
pub proof fn lemma_synchronization_is_determined(
    desired: DesiredConfig,
    resolved: Map<Seq<char>, Version>,
    installed: Map<Seq<char>, Version>,
    first: Result<InstallSet, PackageFailure>,
    second: Result<InstallSet, PackageFailure>,
)
    requires
        is_synchronization(desired, resolved, installed, first),
        is_synchronization(desired, resolved, installed, second),
    ensures
        first is Ok <==> second is Ok,
        first is Ok ==> first->Ok_0@.dom() == second->Ok_0@.dom(),
        first is Ok ==> forall|name: Seq<char>| #[trigger]
            first->Ok_0@.contains_key(name) ==> first->Ok_0@[name]@ == second->Ok_0@[name]@,
        first is Err ==> first->Err_0.package@ == second->Err_0.package@ && first->Err_0.error
            == second->Err_0.error,
{
    match (first, second) {
        (Ok(a), Ok(b)) => {
            assert forall|name: Seq<char>| a@.dom().contains(name) <==> b@.dom().contains(
                name,
            ) by {
                assert(a@.contains_key(name) <==> needs_install(
                    desired,
                    resolved,
                    installed,
                    name,
                ));
                assert(b@.contains_key(name) <==> needs_install(
                    desired,
                    resolved,
                    installed,
                    name,
                ));
            }
            assert(a@.dom() =~= b@.dom());
            assert forall|name: Seq<char>| #[trigger] a@.contains_key(name) implies a@[name]@
                == b@[name]@ by {
                assert(b@.contains_key(name));
            }
        },
        (Err(a), Err(b)) => {
            lemma_name_lt_total(a.package@, b.package@);
        },
        (Ok(_), Err(b)) => {},
        (Err(a), Ok(_)) => {},
    }
}

/// The declared packages that have to be installed or updated, each as it
/// is declared: those in effect that are not installed, or are installed
/// in a version strictly before their target.
///
/// It fails with `MissingResolution` when a package in effect has no
/// target, and only then; the failure names the first such package in the
/// order of the names. With both toggles off it gives the empty set and
/// looks at no target.
pub fn synchronize(
    desired: &DesiredConfig,
    resolved: &ResolvedTargets,
    installed: &InstalledState,
) -> (r: Result<InstallSet, PackageFailure>)
    ensures
        is_synchronization(*desired, resolved@, installed@, r),
        !desired.update_self && !desired.update_others ==> r is Ok && r->Ok_0@
            == Map::<Seq<char>, Package>::empty(),
{
    if !desired.update_self && !desired.update_others {
        return Ok(NameMap::new());
    }
    proof {
        use_type_invariant(&desired.packages);
    }
    let ghost names = desired.packages.names();
    let mut set: NameMap<Package> = NameMap::new();
    let mut i: usize = 0;
    while i < desired.packages.len()
        invariant
            i <= names.len(),
            names == desired.packages.names(),
            strictly_sorted(names),
            forall|name: Seq<char>| #[trigger]
                listed_before(names, i as int, name) ==> !lacks_resolution(
                    *desired,
                    resolved@,
                    name,
                ),
            forall|name: Seq<char>|
                #![trigger set@.contains_key(name)]
                #![trigger listed_before(names, i as int, name)]
                set@.contains_key(name) <==> listed_before(names, i as int, name) && needs_install(
                    *desired,
                    resolved@,
                    installed@,
                    name,
                ),
            forall|name: Seq<char>| #[trigger]
                set@.contains_key(name) ==> set@[name]@ == desired.packages@[name]@,
        decreases names.len() - i,
    {
        let name = desired.packages.name_at(i);
        if desired.admits(name) {
            let target = match resolved.get(name) {
                Some(target) => target,
                None => {
                    proof {
                        assert forall|other: Seq<char>|
                            lacks_resolution(*desired, resolved@, other) implies !name_lt(
                            other,
                            name@,
                        ) by {
                            lemma_listed_before_end(names, other);
                            let j: int = choose|j: int| 0 <= j < names.len() && names[j] == other;
                            if j < i {
                                assert(listed_before(names, i as int, other));
                            } else if j == i {
                                lemma_name_lt_irreflexive(other);
                            } else {
                                lemma_name_lt_asymmetric(names[i as int], names[j]);
                            }
                        }
                    }
                    return Err(
                        PackageFailure {
                            package: String::from_str(name),
                            error: SyncError::MissingResolution,
                        },
                    );
                },
            };
            let needed = match installed.get(name) {
                Some(current) => current.precedes(target),
                None => true,
            };
            if needed {
                set.insert(String::from_str(name), desired.packages.value_at(i).clone());
            }
        }
        proof {
            assert forall|other: Seq<char>|
                listed_before(names, i + 1, other) implies !lacks_resolution(
                *desired,
                resolved@,
                other,
            ) by {
                lemma_listed_before_step(names, i as int, other);
            }
            assert forall|other: Seq<char>|
                set@.contains_key(other) <==> listed_before(names, i + 1, other) && needs_install(
                    *desired,
                    resolved@,
                    installed@,
                    other,
                ) by {
                lemma_listed_before_step(names, i as int, other);
            }
        }
        i += 1;
    }
    proof {
        assert forall|name: Seq<char>| !lacks_resolution(*desired, resolved@, name) by {
            lemma_listed_before_end(names, name);
        }
        assert forall|name: Seq<char>|
            set@.contains_key(name) <==> needs_install(*desired, resolved@, installed@, name) by {
            lemma_listed_before_end(names, name);
        }
    }
    Ok(set)
}

} // verus!
