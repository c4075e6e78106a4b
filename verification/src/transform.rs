//! The import of an installed-package record into a desired configuration.

use crate::config::DesiredConfig;
use crate::intent::{intent_of, VersionIntent, VersionIntentKind};
use crate::name_map::{lemma_order_follows_from_names, NameMap};
use crate::names::{
    is_self, lemma_listed_before_end, lemma_listed_before_step, listed_before, strictly_sorted,
    SELF_PACKAGE,
};
use crate::package::{Package, PackageView};
use crate::records::InstalledState;
use crate::version::{Version, VersionView};
use vstd::prelude::*;

verus! {

/// Whether the import takes over the installed package of this name: every
/// installed package, but for this tool's own unless it is to be kept.
pub open spec fn is_imported(keep_self: bool, installed: Map<Seq<char>, Version>, name: Seq<char>) -> bool {
    installed.contains_key(name) && (keep_self || name != SELF_PACKAGE@)
}

/// The package that the import declares for an installed version: the
/// intent of the chosen policy with that version as its base, and no
/// options.
pub open spec fn imported_package(mode: VersionIntentKind, version: VersionView) -> PackageView {
    PackageView { intent: intent_of(mode, version), options: Seq::empty() }
}

/// Whether `config` is what the import owes for the record: it declares
/// the installed packages that the import takes over, each with the intent
/// of the chosen policy based on the installed version, in the order of
/// their names, with both toggles on.
pub open spec fn is_import(
    mode: VersionIntentKind,
    keep_self: bool,
    installed: Map<Seq<char>, Version>,
    config: DesiredConfig,
) -> bool {
    &&& config.update_self
    &&& config.update_others
    &&& strictly_sorted(config.packages.names())
    &&& forall|name: Seq<char>| #[trigger]
        config.packages@.contains_key(name) <==> is_imported(keep_self, installed, name)
    &&& forall|name: Seq<char>| #[trigger]
        config.packages@.contains_key(name) ==> config.packages@[name]@ == imported_package(
            mode,
            installed[name]@,
        )
}

/// The import is a function of the installed packages and their versions:
/// two outcomes for the same record declare the same packages in the same
/// order and each of them alike, in whatever order the record was filled.
pub proof fn lemma_import_is_determined(
    mode: VersionIntentKind,
    keep_self: bool,
    installed: Map<Seq<char>, Version>,
    first: DesiredConfig,
    second: DesiredConfig,
)
    requires
        first.packages.well_formed(),
        second.packages.well_formed(),
        is_import(mode, keep_self, installed, first),
        is_import(mode, keep_self, installed, second),
    ensures
        first.packages.names() == second.packages.names(),
        forall|name: Seq<char>| #[trigger]
            first.packages@.contains_key(name) ==> first.packages@[name]@
                == second.packages@[name]@,
{
    assert forall|name: Seq<char>|
        first.packages@.contains_key(name) <==> second.packages@.contains_key(name) by {
        assert(first.packages@.contains_key(name) <==> is_imported(keep_self, installed, name));
        assert(second.packages@.contains_key(name) <==> is_imported(keep_self, installed, name));
    }
    lemma_order_follows_from_names(first.packages, second.packages);
    assert forall|name: Seq<char>| #[trigger]
        first.packages@.contains_key(name) implies first.packages@[name]@
        == second.packages@[name]@ by {
        assert(second.packages@.contains_key(name));
    }
}

/// Makes a desired configuration of an installed-package record: each
/// installed package is declared with the intent of the one chosen policy,
/// based on the version that is installed, and without options. This
/// tool's own package is left out unless `keep_self` is set. Both update
/// toggles are on. No registry is asked.
pub fn import(mode: VersionIntentKind, keep_self: bool, installed: &InstalledState) -> (config:
    DesiredConfig)
    ensures
        is_import(mode, keep_self, installed@, config),
        !keep_self ==> !config.packages@.contains_key(SELF_PACKAGE@),
{
    let ghost names = installed.names();
    let mut packages: NameMap<Package> = NameMap::new();
    let mut i: usize = 0;
    while i < installed.len()
        invariant
            i <= names.len(),
            names == installed.names(),
            forall|name: Seq<char>|
                #![trigger packages@.contains_key(name)]
                #![trigger listed_before(names, i as int, name)]
                packages@.contains_key(name) <==> listed_before(names, i as int, name) && (keep_self
                    || name != SELF_PACKAGE@),
            forall|name: Seq<char>| #[trigger]
                packages@.contains_key(name) ==> packages@[name]@ == imported_package(
                    mode,
                    installed@[name]@,
                ),
        decreases names.len() - i,
    {
        let name = installed.name_at(i);
        if keep_self || !is_self(name) {
            let version = installed.value_at(i).clone();
            packages.insert(String::from_str(name), Package::new(VersionIntent::new(mode, version)));
        }
        proof {
            assert forall|other: Seq<char>|
                packages@.contains_key(other) <==> listed_before(names, i + 1, other) && (keep_self
                    || other != SELF_PACKAGE@) by {
                lemma_listed_before_step(names, i as int, other);
            }
        }
        i += 1;
    }
    proof {
        assert forall|name: Seq<char>|
            packages@.contains_key(name) <==> is_imported(keep_self, installed@, name) by {
            lemma_listed_before_end(names, name);
        }
        use_type_invariant(&packages);
    }
    DesiredConfig::new(packages)
}

} // verus!
