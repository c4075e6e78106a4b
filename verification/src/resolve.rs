//! The resolution of the declared packages against the versions that the
//! registry offers.

use crate::config::DesiredConfig;
use crate::error::{PackageFailure, SyncError};
use crate::intent::{intent_matches, is_best, lemma_best_is_unique, IntentView, VersionIntent};
use crate::name_map::NameMap;
use crate::names::{
    lemma_listed_before_end, lemma_listed_before_step, lemma_name_lt_asymmetric,
    lemma_name_lt_irreflexive, lemma_name_lt_total, listed_before, name_lt, strictly_sorted,
};
use crate::records::{AvailableVersions, ResolvedTargets};
use crate::version::{Version, VersionView};
use vstd::prelude::*;

verus! {

/// What stands in the way of resolving an intent for the package of the
/// given name, if anything does: the registry does not know the package,
/// or it offers no version that the intent admits.
pub open spec fn resolution_error(
    intent: IntentView,
    available: Map<Seq<char>, Vec<Version>>,
    name: Seq<char>,
) -> Option<SyncError> {
    if !available.contains_key(name) {
        Some(SyncError::PackageNotFound)
    } else if forall|j: int|
        0 <= j < available[name]@.len() ==> !intent_matches(intent, (#[trigger] available[name]@[j])@) {
        Some(SyncError::NoMatchingVersion)
    } else {
        None
    }
}

/// Whether `r` is what resolution owes for the configuration and the
/// versions on offer: the highest admitted version of each package in
/// effect, or the failure of the first package, in the order of the
/// names, that cannot be resolved.
pub open spec fn is_resolution(
    desired: DesiredConfig,
    available: Map<Seq<char>, Vec<Version>>,
    r: Result<ResolvedTargets, PackageFailure>,
) -> bool {
    match r {
        Ok(targets) => {
            &&& forall|name: Seq<char>| #[trigger]
                targets@.contains_key(name) <==> desired.is_effective(name)
            &&& forall|name: Seq<char>| #[trigger]
                desired.is_effective(name) ==> available.contains_key(name) && is_best(
                    desired.packages@[name].intent@,
                    available[name]@,
                    targets@[name]@,
                )
        },
        Err(failure) => {
            &&& desired.is_effective(failure.package@)
            &&& resolution_error(
                desired.packages@[failure.package@].intent@,
                available,
                failure.package@,
            ) == Some(failure.error)
            &&& forall|name: Seq<char>|
                desired.is_effective(name) && name_lt(name, failure.package@) ==> resolution_error(
                    desired.packages@[name].intent@,
                    available,
                    name,
                ) is None
        },
    }
}

/// Among candidates of which one is the best that an intent admits, one
/// is admitted.
pub proof fn lemma_best_is_a_match(
    intent: IntentView,
    available: Map<Seq<char>, Vec<Version>>,
    name: Seq<char>,
    best: VersionView,
)
    requires
        available.contains_key(name),
        is_best(intent, available[name]@, best),
    ensures
        resolution_error(intent, available, name) is None,
{
    let candidates = available[name]@;
    let k: int = choose|k: int| 0 <= k < candidates.len() && (#[trigger] candidates[k])@ == best;
    assert(intent_matches(intent, candidates[k]@));
}

/// Where the packages in effect that stand before place `i` all have
/// their best version as target, none of those that stand before the name
/// at place `i` fails to resolve.
proof fn lemma_earlier_are_resolved(
    desired: DesiredConfig,
    available: Map<Seq<char>, Vec<Version>>,
    targets: Map<Seq<char>, Version>,
    i: int,
)
    requires
        0 <= i < desired.packages.names().len(),
        strictly_sorted(desired.packages.names()),
        forall|name: Seq<char>|
            #![trigger targets.contains_key(name)]
            #![trigger listed_before(desired.packages.names(), i, name)]
            targets.contains_key(name) <==> listed_before(desired.packages.names(), i, name)
                && desired.is_effective(name),
        forall|name: Seq<char>| #[trigger]
            targets.contains_key(name) ==> available.contains_key(name) && is_best(
                desired.packages@[name].intent@,
                available[name]@,
                targets[name]@,
            ),
    ensures
        forall|name: Seq<char>|
            desired.is_effective(name) && name_lt(name, desired.packages.names()[i])
                ==> resolution_error(desired.packages@[name].intent@, available, name) is None,
{
    let names = desired.packages.names();
    assert forall|name: Seq<char>|
        desired.is_effective(name) && name_lt(name, names[i]) implies resolution_error(
        desired.packages@[name].intent@,
        available,
        name,
    ) is None by {
        lemma_listed_before_end(names, name);
        let j: int = choose|j: int| 0 <= j < names.len() && names[j] == name;
        if j == i {
            lemma_name_lt_irreflexive(name);
        } else if j > i {
            lemma_name_lt_asymmetric(names[i], names[j]);
        }
        assert(listed_before(names, i, name));
        assert(targets.contains_key(name));
        lemma_best_is_a_match(desired.packages@[name].intent@, available, name, targets[name]@);
    }
}

/// Resolution is a function of the configuration and the versions on
/// offer: two outcomes for the same inputs succeed or fail together, give
/// the same packages the same targets, and fail alike over the same
/// package.
pub proof fn lemma_resolution_is_determined(
    desired: DesiredConfig,
    available: Map<Seq<char>, Vec<Version>>,
    first: Result<ResolvedTargets, PackageFailure>,
    second: Result<ResolvedTargets, PackageFailure>,
)
    requires
        is_resolution(desired, available, first),
        is_resolution(desired, available, second),
    ensures
        first is Ok <==> second is Ok,
        first is Ok ==> first->Ok_0@.dom() == second->Ok_0@.dom(),
        first is Ok ==> forall|name: Seq<char>| #[trigger]
            first->Ok_0@.contains_key(name) ==> first->Ok_0@[name]@ == second->Ok_0@[name]@,
        first is Err ==> first->Err_0.package@ == second->Err_0.package@ && first->Err_0.error
            == second->Err_0.error,
{
    match (first, second) {
        (Ok(a), Ok(b)) => {
            assert forall|name: Seq<char>| a@.dom().contains(name) <==> b@.dom().contains(
                name,
            ) by {
                assert(a@.contains_key(name) <==> desired.is_effective(name));
                assert(b@.contains_key(name) <==> desired.is_effective(name));
            }
            assert(a@.dom() =~= b@.dom());
            assert forall|name: Seq<char>| #[trigger] a@.contains_key(name) implies a@[name]@
                == b@[name]@ by {
                assert(desired.is_effective(name));
                lemma_best_is_unique(
                    desired.packages@[name].intent@,
                    available[name]@,
                    a@[name]@,
                    b@[name]@,
                );
            }
        },
        (Err(a), Err(b)) => {
            lemma_name_lt_total(a.package@, b.package@);
        },
        (Ok(a), Err(b)) => {
            assert(desired.is_effective(b.package@));
            lemma_best_is_a_match(
                desired.packages@[b.package@].intent@,
                available,
                b.package@,
                a@[b.package@]@,
            );
        },
        (Err(a), Ok(b)) => {
            assert(desired.is_effective(a.package@));
            lemma_best_is_a_match(
                desired.packages@[a.package@].intent@,
                available,
                a.package@,
                b@[a.package@]@,
            );
        },
    }
}

/// With both toggles off no package is in effect, so that whatever the
/// registry offers, resolution succeeds with no target at all.
pub proof fn lemma_toggles_off_resolves_nothing(
    desired: DesiredConfig,
    available: Map<Seq<char>, Vec<Version>>,
    r: Result<ResolvedTargets, PackageFailure>,
)
    requires
        !desired.update_self,
        !desired.update_others,
        is_resolution(desired, available, r),
    ensures
        r is Ok,
        r->Ok_0@ == Map::<Seq<char>, Version>::empty(),
{
    if r is Ok {
        assert(r->Ok_0@ =~= Map::<Seq<char>, Version>::empty());
    }
}

/// The highest version that the registry offers of the package `name` and
/// that the intent admits.
///
/// It fails with `PackageNotFound` when the registry does not know the
/// package, with `NoMatchingVersion` when it knows the package and offers
/// no version that the intent admits, and in no other case.
pub fn resolve(name: &str, intent: &VersionIntent, available: &AvailableVersions) -> (r: Result<
    Version,
    SyncError,
>)
    ensures
        match r {
            Ok(best) => {
                &&& resolution_error(intent@, available@, name@) is None
                &&& is_best(intent@, available@[name@]@, best@)
            },
            Err(error) => resolution_error(intent@, available@, name@) == Some(error),
        },
{
    match available.get(name) {
        None => Err(SyncError::PackageNotFound),
        Some(candidates) => {
            let r = intent.select(candidates);
            proof {
                if r is Ok {
                    lemma_best_is_a_match(intent@, available@, name@, r->Ok_0@);
                }
            }
            r
        },
    }
}

/// Resolves every package in effect to the highest version on offer that
/// its intent admits.
///
/// It fails when a package in effect is unknown to the registry
/// (`PackageNotFound`) or is offered in no version that its intent admits
/// (`NoMatchingVersion`), and only then; the failure is that of the first
/// such package in the order of the names, and no targets are given. With
/// both toggles off it gives no target and looks at no offer.
pub fn resolve_all(desired: &DesiredConfig, available: &AvailableVersions) -> (r: Result<
    ResolvedTargets,
    PackageFailure,
>)
    ensures
        is_resolution(*desired, available@, r),
{
    if !desired.update_self && !desired.update_others {
        return Ok(NameMap::new());
    }
    proof {
        use_type_invariant(&desired.packages);
    }
    let ghost names = desired.packages.names();
    let mut targets: NameMap<Version> = NameMap::new();
    let mut i: usize = 0;
    while i < desired.packages.len()
        invariant
            i <= names.len(),
            names == desired.packages.names(),
            strictly_sorted(names),
            forall|name: Seq<char>|
                #![trigger targets@.contains_key(name)]
                #![trigger listed_before(names, i as int, name)]
                targets@.contains_key(name) <==> listed_before(names, i as int, name)
                    && desired.is_effective(name),
            forall|name: Seq<char>| #[trigger]
                targets@.contains_key(name) ==> available@.contains_key(name) && is_best(
                    desired.packages@[name].intent@,
                    available@[name]@,
                    targets@[name]@,
                ),
        decreases names.len() - i,
    {
        let name = desired.packages.name_at(i);
        if desired.admits(name) {
            let package = desired.packages.value_at(i);
            match resolve(name, &package.intent, available) {
                Ok(best) => {
                    targets.insert(String::from_str(name), best);
                },
                Err(error) => {
                    proof {
                        lemma_earlier_are_resolved(*desired, available@, targets@, i as int);
                    }
                    return Err(PackageFailure { package: String::from_str(name), error });
                },
            }
        }
        proof {
            assert forall|other: Seq<char>|
                targets@.contains_key(other) <==> listed_before(names, i + 1, other)
                    && desired.is_effective(other) by {
                lemma_listed_before_step(names, i as int, other);
            }
        }
        i += 1;
    }
    proof {
        assert forall|name: Seq<char>|
            targets@.contains_key(name) <==> desired.is_effective(name) by {
            lemma_listed_before_end(names, name);
        }
    }
    Ok(targets)
}

} // verus!
