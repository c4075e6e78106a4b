//! A map from package names to values, kept in the lexicographic order of
//! the names.

use crate::names::{
    lemma_name_lt_irreflexive, lemma_name_lt_total, lemma_name_lt_transitive,
    lemma_sorted_list_is_determined, name_lt, str_lt, strictly_sorted,
};
use vstd::prelude::*;

verus! {

/// The map that a list of names and a list of values of the same length
/// stand for: each name is bound to the value at its place.
pub open spec fn entries_map<V>(names: Seq<Seq<char>>, values: Seq<V>) -> Map<Seq<char>, V> {
    Map::new(
        |name: Seq<char>| names.contains(name),
        |name: Seq<char>| values[names.index_of(name)],
    )
}

/// In a strictly sorted list no name occurs twice, so the map binds the
/// name at each place to the value at that place, and binds nothing else.
pub proof fn lemma_entries_map<V>(names: Seq<Seq<char>>, values: Seq<V>)
    requires
        strictly_sorted(names),
        names.len() == values.len(),
    ensures
        forall|i: int, j: int|
            0 <= i < names.len() && 0 <= j < names.len() && #[trigger] names[i] == #[trigger] names[j]
                ==> i == j,
        forall|i: int|
            0 <= i < names.len() ==> entries_map(names, values).contains_key(#[trigger] names[i])
                && entries_map(names, values)[names[i]] == values[i],
        forall|name: Seq<char>| #[trigger]
            entries_map(names, values).contains_key(name) <==> names.contains(name),
{
    assert forall|i: int, j: int|
        0 <= i < names.len() && 0 <= j < names.len() && #[trigger] names[i] == #[trigger] names[j]
        implies i == j by {
        lemma_name_lt_irreflexive(names[i]);
    }
    assert forall|i: int| 0 <= i < names.len() implies entries_map(names, values).contains_key(
        #[trigger] names[i],
    ) && entries_map(names, values)[names[i]] == values[i] by {
        let k: int = names.index_of(names[i]);
        assert(0 <= k < names.len() && names[k] == names[i]);
    }
}

/// The order in which a map holds its entries follows from the names that
/// it binds: two maps that bind the same names hold them in the same
/// order, however each was filled.
pub proof fn lemma_order_follows_from_names<V, W>(a: NameMap<V>, b: NameMap<W>)
    requires
        a.well_formed(),
        b.well_formed(),
        forall|name: Seq<char>| a@.contains_key(name) <==> b@.contains_key(name),
    ensures
        a.names() == b.names(),
{
    lemma_entries_map(a.names(), a.values());
    lemma_entries_map(b.names(), b.values());
    assert forall|name: Seq<char>| a.names().contains(name) <==> b.names().contains(name) by {
        assert(a@.contains_key(name) <==> a.names().contains(name));
        assert(b@.contains_key(name) <==> b.names().contains(name));
    }
    lemma_sorted_list_is_determined(a.names(), b.names());
}

/// The names of a list of entries, in the order of the list.
pub open spec fn names_of<V>(entries: Seq<(String, V)>) -> Seq<Seq<char>> {
    Seq::new(entries.len(), |i: int| entries[i].0@)
}

/// The values of a list of entries, in the order of the list.
pub open spec fn values_of<V>(entries: Seq<(String, V)>) -> Seq<V> {
    Seq::new(entries.len(), |i: int| entries[i].1)
}

/// A map from package names to values of type `V`. Its entries stand in
/// the lexicographic order of their names, whatever the order in which
/// they were inserted.
#[derive(Debug, PartialEq, Eq)]
pub struct NameMap<V> {
    entries: Vec<(String, V)>,
}

impl<V> View for NameMap<V> {
    type V = Map<Seq<char>, V>;

    open spec fn view(&self) -> Map<Seq<char>, V> {
        entries_map(self.names(), self.values())
    }
}

impl<V> NameMap<V> {
    /// The names of the entries, in the order in which the map holds them.
    pub closed spec fn names(&self) -> Seq<Seq<char>> {
        names_of(self.entries@)
    }

    /// The values of the entries, each at the place of its name.
    pub closed spec fn values(&self) -> Seq<V> {
        values_of(self.entries@)
    }

    /// The names are strictly sorted, and each has its value.
    #[verifier::type_invariant]
    pub open spec fn well_formed(self) -> bool {
        &&& strictly_sorted(self.names())
        &&& self.names().len() == self.values().len()
    }

    /// The empty map.
    pub fn new() -> (map: Self)
        ensures
            map.names().len() == 0,
            map@ == Map::<Seq<char>, V>::empty(),
    {
        NameMap { entries: Vec::new() }
    }

    /// The number of entries.
    pub fn len(&self) -> (n: usize)
        ensures
            n == self.names().len(),
            n == self.values().len(),
    {
        self.entries.len()
    }

    /// Whether the map has no entry.
    pub fn is_empty(&self) -> (r: bool)
        ensures
            r == (self.names().len() == 0),
            r == (self@ == Map::<Seq<char>, V>::empty()),
    {
        proof {
            use_type_invariant(self);
            lemma_entries_map(self.names(), self.values());
            if self.names().len() == 0 {
                assert(self@ =~= Map::<Seq<char>, V>::empty());
            } else {
                assert(self@.contains_key(self.names()[0]));
            }
        }
        self.entries.len() == 0
    }

    /// The name of the entry at place `i`.
    pub fn name_at(&self, i: usize) -> (name: &str)
        requires
            i < self.names().len(),
        ensures
            name@ == self.names()[i as int],
            self@.contains_key(name@),
    {
        proof {
            use_type_invariant(self);
            lemma_entries_map(self.names(), self.values());
        }
        self.entries[i].0.as_str()
    }

    /// The value of the entry at place `i`.
    pub fn value_at(&self, i: usize) -> (value: &V)
        requires
            i < self.names().len(),
        ensures
            *value == self.values()[i as int],
            *value == self@[self.names()[i as int]],
    {
        proof {
            use_type_invariant(self);
            lemma_entries_map(self.names(), self.values());
        }
        &self.entries[i].1
    }

    /// The place at which `name` stands, or would stand if it were
    /// inserted, and whether it stands there.
    fn find(&self, name: &str) -> (r: (usize, bool))
        ensures
            r.0 <= self.names().len(),
            forall|j: int| 0 <= j < r.0 ==> name_lt(#[trigger] self.names()[j], name@),
            forall|j: int|
                r.0 < j < self.names().len() ==> name_lt(name@, #[trigger] self.names()[j]),
            r.0 < self.names().len() ==> if r.1 {
                self.names()[r.0 as int] == name@
            } else {
                name_lt(name@, self.names()[r.0 as int])
            },
            r.1 ==> r.0 < self.names().len(),
            r.1 == self.names().contains(name@),
    {
        proof {
            use_type_invariant(self);
        }
        let ghost names = self.names();
        let mut lo: usize = 0;
        let mut hi: usize = self.entries.len();
        while lo < hi
            invariant
                names == self.names(),
                strictly_sorted(names),
                lo <= hi <= names.len(),
                names.len() == self.entries@.len(),
                forall|j: int| 0 <= j < lo ==> name_lt(#[trigger] names[j], name@),
                forall|j: int| hi <= j < names.len() ==> !name_lt(#[trigger] names[j], name@),
            decreases hi - lo,
        {
            let mid: usize = lo + (hi - lo) / 2;
            if str_lt(self.entries[mid].0.as_str(), name) {
                proof {
                    assert forall|j: int| 0 <= j < mid + 1 implies name_lt(
                        #[trigger] names[j],
                        name@,
                    ) by {
                        if j < mid {
                            lemma_name_lt_transitive(names[j], names[mid as int], name@);
                        }
                    }
                }
                lo = mid + 1;
            } else {
                proof {
                    assert forall|j: int| mid <= j < names.len() implies !name_lt(
                        #[trigger] names[j],
                        name@,
                    ) by {
                        if mid < j && name_lt(names[j], name@) {
                            lemma_name_lt_transitive(names[mid as int], names[j], name@);
                        }
                    }
                }
                hi = mid;
            }
        }
        let found = lo < self.entries.len() && !str_lt(name, self.entries[lo].0.as_str());
        proof {
            if found {
                lemma_name_lt_total(name@, names[lo as int]);
            }
            assert forall|j: int| lo < j < names.len() implies name_lt(
                name@,
                #[trigger] names[j],
            ) by {
                if found {
                    assert(name_lt(names[lo as int], names[j]));
                } else {
                    lemma_name_lt_transitive(name@, names[lo as int], names[j]);
                }
            }
            if names.contains(name@) {
                let j: int = choose|j: int| 0 <= j < names.len() && names[j] == name@;
                lemma_name_lt_irreflexive(name@);
            }
        }
        (lo, found)
    }

    /// Whether the map binds `name`.
    pub fn contains(&self, name: &str) -> (r: bool)
        ensures
            r == self@.contains_key(name@),
    {
        let (_, found) = self.find(name);
        found
    }

    /// The value that the map binds `name` to, if it binds it.
    pub fn get(&self, name: &str) -> (r: Option<&V>)
        ensures
            match r {
                Some(value) => self@.contains_key(name@) && *value == self@[name@],
                None => !self@.contains_key(name@),
            },
    {
        proof {
            use_type_invariant(self);
            lemma_entries_map(self.names(), self.values());
        }
        let (i, found) = self.find(name);
        if found {
            Some(&self.entries[i].1)
        } else {
            None
        }
    }

    /// Binds `name` to `value`, and gives back the value that it was bound
    /// to before, if it was bound.
    pub fn insert(&mut self, name: String, value: V) -> (previous: Option<V>)
        ensures
            final(self)@ == old(self)@.insert(name@, value),
            previous == (if old(self)@.contains_key(name@) {
                Some(old(self)@[name@])
            } else {
                None
            }),
    {
        proof {
            use_type_invariant(&*self);
            lemma_entries_map(self.names(), self.values());
        }
        let ghost old_names = self.names();
        let ghost old_values = self.values();
        let (i, found) = self.find(name.as_str());
        let mut entries: Vec<(String, V)> = Vec::new();
        std::mem::swap(&mut entries, &mut self.entries);
        let previous = if found {
            let (_, old_value) = entries.remove(i);
            Some(old_value)
        } else {
            None
        };
        let ghost key = name@;
        entries.insert(i, (name, value));
        let ghost new_names = names_of(entries@);
        let ghost new_values = values_of(entries@);
        let ghost shift: int = if found {
            0
        } else {
            1
        };
        proof {
            assert(new_names.len() == old_names.len() + shift);
            assert(new_names[i as int] == key);
            assert(new_values[i as int] == value);
            assert forall|j: int| 0 <= j < i implies new_names[j] == old_names[j] && new_values[j]
                == old_values[j] by {}
            assert forall|j: int| i < j < new_names.len() implies new_names[j] == old_names[j
                - shift] && new_values[j] == old_values[j - shift] by {}
            assert forall|a: int, b: int| 0 <= a < b < new_names.len() implies name_lt(
                #[trigger] new_names[a],
                #[trigger] new_names[b],
            ) by {
                if a < i && b > i {
                    lemma_name_lt_transitive(new_names[a], key, new_names[b]);
                }
            }
            lemma_entries_map(new_names, new_values);
        }
        self.entries = entries;
        proof {
            assert forall|k: Seq<char>| self@.contains_key(k) <==> old(self)@.insert(
                key,
                value,
            ).contains_key(k) by {
                if old_names.contains(k) && k != key {
                    let j: int = choose|j: int| 0 <= j < old_names.len() && old_names[j] == k;
                    if j < i {
                        assert(new_names[j] == k);
                    } else {
                        assert(new_names[j + shift] == k);
                    }
                }
                if new_names.contains(k) && k != key {
                    let j: int = choose|j: int| 0 <= j < new_names.len() && new_names[j] == k;
                    if j < i {
                        assert(old_names[j] == k);
                    } else {
                        assert(old_names[j - shift] == k);
                    }
                }
            }
            assert forall|k: Seq<char>| self@.contains_key(k) implies self@[k] == old(
                self,
            )@.insert(key, value)[k] by {
                let j: int = choose|j: int| 0 <= j < new_names.len() && new_names[j] == k;
                if j < i {
                    assert(old_names[j] == k);
                } else if j > i {
                    assert(old_names[j - shift] == k);
                }
            }
            assert(self@ =~= old(self)@.insert(key, value));
        }
        previous
    }

    /// The names of the entries, in lexicographic order.
    pub fn name_list(&self) -> (list: Vec<String>)
        ensures
            list@.len() == self.names().len(),
            forall|i: int| 0 <= i < list@.len() ==> (#[trigger] list@[i])@ == self.names()[i],
            strictly_sorted(self.names()),
    {
        proof {
            use_type_invariant(self);
        }
        let mut list: Vec<String> = Vec::new();
        let mut i: usize = 0;
        while i < self.entries.len()
            invariant
                i <= self.entries@.len(),
                self.entries@.len() == self.names().len(),
                list@.len() == i,
                forall|j: int| 0 <= j < i ==> (#[trigger] list@[j])@ == self.names()[j],
            decreases self.entries@.len() - i,
        {
            list.push(self.entries[i].0.clone());
            i += 1;
        }
        list
    }
}

} // verus!
