//! The desired configuration: the declared packages and the two update
//! toggles.

use crate::name_map::NameMap;
use crate::names::{is_self, listed_before, name_lt, strictly_sorted, SELF_PACKAGE};
use crate::package::{texts, Package};
use vstd::prelude::*;

verus! {

/// Whether the toggles let a package of the given name take part in an
/// update: the first toggle decides for this tool's own package, the
/// second for every other.
pub open spec fn toggles_admit(update_self: bool, update_others: bool, name: Seq<char>) -> bool {
    if name == SELF_PACKAGE@ {
        update_self
    } else {
        update_others
    }
}

/// The declared packages, by name, and the two toggles: whether to update
/// this tool's own package, and whether to update the others.
#[derive(Debug, PartialEq, Eq)]
pub struct DesiredConfig {
    pub packages: NameMap<Package>,
    pub update_self: bool,
    pub update_others: bool,
}

impl DesiredConfig {
    /// Whether a package of this name is declared and the toggles let it
    /// take part in an update.
    pub open spec fn is_effective(&self, name: Seq<char>) -> bool {
        self.packages@.contains_key(name) && toggles_admit(
            self.update_self,
            self.update_others,
            name,
        )
    }

    /// The configuration that declares the given packages and updates all
    /// of them.
    pub fn new(packages: NameMap<Package>) -> (config: DesiredConfig)
        ensures
            config.packages == packages,
            config.update_self,
            config.update_others,
    {
        DesiredConfig { packages, update_self: true, update_others: true }
    }

    /// The same configuration with the toggle for this tool's own package
    /// set as given.
    pub fn self_update(self, on: bool) -> (config: DesiredConfig)
        ensures
            config.packages == self.packages,
            config.update_self == on,
            config.update_others == self.update_others,
    {
        DesiredConfig { packages: self.packages, update_self: on, update_others: self.update_others }
    }

    /// The same configuration with the toggle for the other packages set
    /// as given.
    pub fn update_others(self, on: bool) -> (config: DesiredConfig)
        ensures
            config.packages == self.packages,
            config.update_self == self.update_self,
            config.update_others == on,
    {
        DesiredConfig { packages: self.packages, update_self: self.update_self, update_others: on }
    }

    /// Whether the toggles let a package of this name take part in an
    /// update.
    pub fn admits(&self, name: &str) -> (r: bool)
        ensures
            r == toggles_admit(self.update_self, self.update_others, name@),
    {
        if is_self(name) {
            self.update_self
        } else {
            self.update_others
        }
    }

    /// The names of the packages in effect, in lexicographic order: the
    /// packages for which a target version has to be resolved. With both
    /// toggles off there is none.
    pub fn names_in_effect(&self) -> (list: Vec<String>)
        ensures
            strictly_sorted(texts(list@)),
            forall|name: Seq<char>| self.is_effective(name) <==> texts(list@).contains(name),
    {
        proof {
            use_type_invariant(&self.packages);
        }
        let ghost names = self.packages.names();
        let mut list: Vec<String> = Vec::new();
        let mut i: usize = 0;
        while i < self.packages.len()
            invariant
                i <= names.len(),
                names == self.packages.names(),
                strictly_sorted(names),
                strictly_sorted(texts(list@)),
                forall|k: int|
                    0 <= k < list@.len() ==> listed_before(names, i as int, #[trigger] texts(list@)[k])
                        && toggles_admit(self.update_self, self.update_others, texts(list@)[k]),
                forall|j: int|
                    0 <= j < i && toggles_admit(
                        self.update_self,
                        self.update_others,
                        #[trigger] names[j],
                    ) ==> texts(list@).contains(names[j]),
            decreases names.len() - i,
        {
            let name = self.packages.name_at(i);
            let ghost before = texts(list@);
            if self.admits(name) {
                list.push(String::from_str(name));
                proof {
                    let after = texts(list@);
                    assert(after =~= before.push(names[i as int]));
                    assert forall|a: int, b: int| 0 <= a < b < after.len() implies name_lt(
                        #[trigger] after[a],
                        #[trigger] after[b],
                    ) by {
                        if b == after.len() - 1 {
                            assert(listed_before(names, i as int, before[a]));
                            let j: int = choose|j: int| 0 <= j < i && names[j] == before[a];
                            assert(name_lt(names[j], names[i as int]));
                        } else {
                            assert(name_lt(before[a], before[b]));
                        }
                    }
                    assert forall|j: int|
                        0 <= j < i + 1 && toggles_admit(
                            self.update_self,
                            self.update_others,
                            #[trigger] names[j],
                        ) implies after.contains(names[j]) by {
                        if j == i {
                            assert(after[after.len() - 1] == names[j]);
                        } else {
                            assert(before.contains(names[j]));
                            let k: int = choose|k: int| 0 <= k < before.len() && before[k] == names[j];
                            assert(after[k] == names[j]);
                        }
                    }
                }
            }
            proof {
                let after = texts(list@);
                assert forall|k: int| 0 <= k < list@.len() implies listed_before(
                    names,
                    i + 1,
                    #[trigger] after[k],
                ) && toggles_admit(self.update_self, self.update_others, after[k]) by {
                    if k < before.len() {
                        assert(after[k] == before[k]);
                        assert(listed_before(names, i as int, before[k]));
                        let j: int = choose|j: int| 0 <= j < i && names[j] == before[k];
                        assert(0 <= j < i + 1 && names[j] == after[k]);
                    } else {
                        assert(names[i as int] == after[k]);
                    }
                }
            }
            i += 1;
        }
        proof {
            let found = texts(list@);
            assert forall|name: Seq<char>| self.is_effective(name) <==> found.contains(name) by {
                if self.is_effective(name) {
                    let j: int = choose|j: int| 0 <= j < names.len() && names[j] == name;
                    assert(toggles_admit(self.update_self, self.update_others, names[j]));
                }
                if found.contains(name) {
                    let k: int = choose|k: int| 0 <= k < found.len() && found[k] == name;
                    assert(listed_before(names, i as int, found[k]));
                    let j: int = choose|j: int| 0 <= j < i && names[j] == found[k];
                    assert(names.contains(name));
                }
            }
        }
        list
    }
}

} // verus!
