//! Package names and their lexicographic order.

use vstd::prelude::*;

verus! {

/// The name under which this tool is itself installed.
pub const SELF_PACKAGE: &'static str = "cargo-liner";

/// The strict lexicographic order of names: by the first character in
/// which they differ, a proper prefix before what extends it.
pub open spec fn name_lt(a: Seq<char>, b: Seq<char>) -> bool
    decreases a.len(),
{
    if b.len() == 0 {
        false
    } else if a.len() == 0 {
        true
    } else if a[0] != b[0] {
        a[0] < b[0]
    } else {
        name_lt(a.drop_first(), b.drop_first())
    }
}

/// Whether the names stand in strictly increasing order.
pub open spec fn strictly_sorted(names: Seq<Seq<char>>) -> bool {
    forall|i: int, j: int| 0 <= i < j < names.len() ==> name_lt(#[trigger] names[i], #[trigger] names[j])
}

/// Whether `name` stands in the list at a place before `i`.
pub open spec fn listed_before(names: Seq<Seq<char>>, i: int, name: Seq<char>) -> bool {
    exists|j: int| 0 <= j < i && j < names.len() && names[j] == name
}

/// What stands before place `i + 1` stands before place `i` or at it.
pub(crate) proof fn lemma_listed_before_step(names: Seq<Seq<char>>, i: int, name: Seq<char>)
    requires
        0 <= i < names.len(),
    ensures
        listed_before(names, i + 1, name) <==> listed_before(names, i, name) || names[i] == name,
{
    if listed_before(names, i, name) {
        let j: int = choose|j: int| 0 <= j < i && j < names.len() && names[j] == name;
        assert(0 <= j < i + 1 && j < names.len() && names[j] == name);
    }
    if names[i] == name {
        assert(0 <= i < i + 1 && i < names.len() && names[i] == name);
    }
}

/// What stands before the end of the list is what the list holds.
pub(crate) proof fn lemma_listed_before_end(names: Seq<Seq<char>>, name: Seq<char>)
    ensures
        listed_before(names, names.len() as int, name) <==> names.contains(name),
        !listed_before(names, 0, name),
{
    if names.contains(name) {
        let j: int = choose|j: int| 0 <= j < names.len() && names[j] == name;
        assert(0 <= j < names.len() && j < names.len() && names[j] == name);
    }
}

/// No name is before itself.
pub proof fn lemma_name_lt_irreflexive(a: Seq<char>)
    ensures
        !name_lt(a, a),
    decreases a.len(),
{
    if a.len() > 0 {
        lemma_name_lt_irreflexive(a.drop_first());
    }
}

/// Of two names, at most one is before the other.
pub proof fn lemma_name_lt_asymmetric(a: Seq<char>, b: Seq<char>)
    requires
        name_lt(a, b),
    ensures
        !name_lt(b, a),
    decreases a.len(),
{
    if a.len() > 0 && b.len() > 0 && a[0] == b[0] {
        lemma_name_lt_asymmetric(a.drop_first(), b.drop_first());
    }
}

/// What is before a name is before all that the name is before.
pub proof fn lemma_name_lt_transitive(a: Seq<char>, b: Seq<char>, c: Seq<char>)
    requires
        name_lt(a, b),
        name_lt(b, c),
    ensures
        name_lt(a, c),
    decreases a.len(),
{
    if a.len() > 0 && b.len() > 0 && c.len() > 0 && a[0] == b[0] && b[0] == c[0] {
        lemma_name_lt_transitive(a.drop_first(), b.drop_first(), c.drop_first());
    }
}

/// Two names of which neither is before the other are the same name.
pub proof fn lemma_name_lt_total(a: Seq<char>, b: Seq<char>)
    requires
        !name_lt(a, b),
        !name_lt(b, a),
    ensures
        a == b,
    decreases a.len(),
{
    if a.len() > 0 && b.len() > 0 {
        lemma_name_lt_total(a.drop_first(), b.drop_first());
        assert(a =~= seq![a[0]] + a.drop_first());
        assert(b =~= seq![b[0]] + b.drop_first());
    } else {
        assert(a =~= b);
    }
}

/// Two strictly sorted lists that hold the same names are the same list:
/// the order of a sorted list follows from what it holds.
pub proof fn lemma_sorted_list_is_determined(a: Seq<Seq<char>>, b: Seq<Seq<char>>)
    requires
        strictly_sorted(a),
        strictly_sorted(b),
        forall|name: Seq<char>| a.contains(name) <==> b.contains(name),
    ensures
        a == b,
    decreases a.len(),
{
    if a.len() == 0 {
        if b.len() > 0 {
            assert(b.contains(b[0]));
        }
        assert(a =~= b);
    } else {
        assert(a.contains(a[0]));
        let j: int = choose|j: int| 0 <= j < b.len() && b[j] == a[0];
        assert(b.contains(b[0]));
        let i: int = choose|i: int| 0 <= i < a.len() && a[i] == b[0];
        if i > 0 && j > 0 {
            assert(name_lt(a[0], a[i]));
            assert(name_lt(b[0], b[j]));
            lemma_name_lt_asymmetric(a[0], b[0]);
        }
        assert(a[0] == b[0]);
        let rest_a = a.drop_first();
        let rest_b = b.drop_first();
        assert forall|name: Seq<char>| rest_a.contains(name) <==> rest_b.contains(name) by {
            lemma_name_lt_irreflexive(name);
            if rest_a.contains(name) {
                let k: int = choose|k: int| 0 <= k < rest_a.len() && rest_a[k] == name;
                assert(a[k + 1] == name);
                assert(name_lt(a[0], a[k + 1]));
                assert(a.contains(name));
                let m: int = choose|m: int| 0 <= m < b.len() && b[m] == name;
                assert(rest_b[m - 1] == name);
            }
            if rest_b.contains(name) {
                let k: int = choose|k: int| 0 <= k < rest_b.len() && rest_b[k] == name;
                assert(b[k + 1] == name);
                assert(name_lt(b[0], b[k + 1]));
                assert(b.contains(name));
                let m: int = choose|m: int| 0 <= m < a.len() && a[m] == name;
                assert(rest_a[m - 1] == name);
            }
        }
        assert forall|x: int, y: int| 0 <= x < y < rest_a.len() implies name_lt(
            #[trigger] rest_a[x],
            #[trigger] rest_a[y],
        ) by {
            assert(name_lt(a[x + 1], a[y + 1]));
        }
        assert forall|x: int, y: int| 0 <= x < y < rest_b.len() implies name_lt(
            #[trigger] rest_b[x],
            #[trigger] rest_b[y],
        ) by {
            assert(name_lt(b[x + 1], b[y + 1]));
        }
        lemma_sorted_list_is_determined(rest_a, rest_b);
        assert(a =~= seq![a[0]] + rest_a);
        assert(b =~= seq![b[0]] + rest_b);
    }
}

/// Compares with the `<` of `str`.
///
/// Believed, not proved: the answer is `name_lt`, since the standard
/// library orders strings lexicographically by their bytes, which is the
/// order of the code points of their characters.
#[verifier::external_body]
pub(crate) fn str_lt(a: &str, b: &str) -> (r: bool)
    ensures
        r == name_lt(a@, b@),
{
    a < b
}

/// Whether `name` is this tool's own name.
pub fn is_self(name: &str) -> (r: bool)
    ensures
        r == (name@ == SELF_PACKAGE@),
{
    let r = !str_lt(name, SELF_PACKAGE) && !str_lt(SELF_PACKAGE, name);
    proof {
        if r {
            lemma_name_lt_total(name@, SELF_PACKAGE@);
        } else {
            lemma_name_lt_irreflexive(name@);
        }
    }
    r
}

} // verus!
