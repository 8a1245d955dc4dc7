//! The orders in which keys are laid out.
use core::cmp::Ordering;
use vstd::prelude::*;
use vstd::relations::total_ordering;
use crate::adapter::{str_eq, str_lt};

verus! {

/// Lexicographic order on key strings, character by character.
pub open spec fn key_le(a: Seq<char>, b: Seq<char>) -> bool
    decreases a.len(),
{
    if a.len() == 0 {
        true
    } else if b.len() == 0 {
        false
    } else if a[0] != b[0] {
        a[0] < b[0]
    } else {
        key_le(a.drop_first(), b.drop_first())
    }
}

/// `key_le` as a relation.
pub open spec fn key_order() -> spec_fn(Seq<char>, Seq<char>) -> bool {
    |a: Seq<char>, b: Seq<char>| key_le(a, b)
}

/// The name of the feature list that is enabled by default.
pub open spec fn default_key() -> Seq<char> {
    "default"@
}

/// The order inside a `features` table: `default` first, then the other keys
/// lexicographically.
pub open spec fn default_first_le(a: Seq<char>, b: Seq<char>) -> bool {
    a == default_key() || (b != default_key() && key_le(a, b))
}

/// `default_first_le` as a relation.
pub open spec fn default_first_order() -> spec_fn(Seq<char>, Seq<char>) -> bool {
    |a: Seq<char>, b: Seq<char>| default_first_le(a, b)
}

/// Compares two keys of a `features` table: `default` comes first, the other
/// keys in lexicographic order.
pub fn default_first(a: &str, b: &str) -> (o: Ordering)
    ensures
        (o is Equal) == (a@ == b@),
        (o is Less) == (a@ != b@ && default_first_le(a@, b@)),
{
    if str_eq(a, b) {
        Ordering::Equal
    } else if str_eq(a, "default") {
        Ordering::Less
    } else if str_eq(b, "default") {
        Ordering::Greater
    } else if str_lt(a, b) {
        Ordering::Less
    } else {
        Ordering::Greater
    }
}

pub proof fn lemma_key_le_reflexive(a: Seq<char>)
    ensures
        key_le(a, a),
    decreases a.len(),
{
    if a.len() > 0 {
        lemma_key_le_reflexive(a.drop_first());
    }
}

pub proof fn lemma_key_le_antisymmetric(a: Seq<char>, b: Seq<char>)
    requires
        key_le(a, b),
        key_le(b, a),
    ensures
        a == b,
    decreases a.len(),
{
    if a.len() > 0 && b.len() > 0 {
        lemma_key_le_antisymmetric(a.drop_first(), b.drop_first());
        assert(a =~= seq![a[0]] + a.drop_first());
        assert(b =~= seq![b[0]] + b.drop_first());
    } else {
        assert(a =~= b);
    }
}

pub proof fn lemma_key_le_transitive(a: Seq<char>, b: Seq<char>, c: Seq<char>)
    requires
        key_le(a, b),
        key_le(b, c),
    ensures
        key_le(a, c),
    decreases a.len(),
{
    if a.len() > 0 && b.len() > 0 && c.len() > 0 {
        if a[0] == b[0] && b[0] == c[0] {
            lemma_key_le_transitive(a.drop_first(), b.drop_first(), c.drop_first());
        }
    }
}

pub proof fn lemma_key_le_total(a: Seq<char>, b: Seq<char>)
    ensures
        key_le(a, b) || key_le(b, a),
    decreases a.len(),
{
    if a.len() > 0 && b.len() > 0 && a[0] == b[0] {
        lemma_key_le_total(a.drop_first(), b.drop_first());
    }
}

/// Lexicographic order is a total order on keys.
pub proof fn lemma_key_order_total()
    ensures
        total_ordering(key_order()),
{
    let r = key_order();
    assert forall|a: Seq<char>| #[trigger] r(a, a) by {
        lemma_key_le_reflexive(a);
    }
    assert forall|a: Seq<char>, b: Seq<char>| #[trigger] r(a, b) && #[trigger] r(b, a) implies a
        == b by {
        lemma_key_le_antisymmetric(a, b);
    }
    assert forall|a: Seq<char>, b: Seq<char>, c: Seq<char>| #[trigger]
        r(a, b) && #[trigger] r(b, c) implies r(a, c) by {
        lemma_key_le_transitive(a, b, c);
    }
    assert forall|a: Seq<char>, b: Seq<char>| #[trigger] r(a, b) || #[trigger] r(b, a) by {
        lemma_key_le_total(a, b);
    }
}

/// `default` first, then lexicographic, is a total order on keys.
pub proof fn lemma_default_first_order_total()
    ensures
        total_ordering(default_first_order()),
{
    let r = default_first_order();
    assert forall|a: Seq<char>| #[trigger] r(a, a) by {
        lemma_key_le_reflexive(a);
    }
    assert forall|a: Seq<char>, b: Seq<char>| #[trigger] r(a, b) && #[trigger] r(b, a) implies a
        == b by {
        if a != default_key() && b != default_key() {
            lemma_key_le_antisymmetric(a, b);
        }
    }
    assert forall|a: Seq<char>, b: Seq<char>, c: Seq<char>| #[trigger]
        r(a, b) && #[trigger] r(b, c) implies r(a, c) by {
        if a != default_key() && b != default_key() && c != default_key() {
            lemma_key_le_transitive(a, b, c);
        }
    }
    assert forall|a: Seq<char>, b: Seq<char>| #[trigger] r(a, b) || #[trigger] r(b, a) by {
        lemma_key_le_total(a, b);
    }
}

} // verus!
