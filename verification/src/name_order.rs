//! The order in which names are listed: lexicographic, character by
//! character, by code point.

use vstd::prelude::*;
use vstd::std_specs::iter::IteratorSpec;

verus! {

/// How one name stands to another in the listing order.
#[derive(Debug, Clone, Copy, PartialEq, Eq, Structural)]
pub enum NameOrder {
    /// The first name comes earlier.
    Before,
    /// Both names are the same.
    Same,
    /// The first name comes later.
    After,
}

/// The lexicographic relation of `a` to `b`: the first position at which the
/// two differ decides, by code point; where one name is a proper prefix of
/// the other, the shorter one comes first.
pub open spec fn relation(a: Seq<char>, b: Seq<char>) -> NameOrder
    decreases a.len(),
{
    if a.len() == 0 {
        if b.len() == 0 {
            NameOrder::Same
        } else {
            NameOrder::Before
        }
    } else if b.len() == 0 {
        NameOrder::After
    } else if a[0] != b[0] {
        if a[0] < b[0] {
            NameOrder::Before
        } else {
            NameOrder::After
        }
    } else {
        relation(a.drop_first(), b.drop_first())
    }
}

/// `a` is listed strictly before `b`.
pub open spec fn precedes(a: Seq<char>, b: Seq<char>) -> bool {
    relation(a, b) == NameOrder::Before
}

/// Two names stand as `Same` exactly when they are equal.
pub proof fn lemma_same_is_equality(a: Seq<char>, b: Seq<char>)
    ensures
        relation(a, b) == NameOrder::Same <==> a == b,
    decreases a.len(),
{
    if a.len() > 0 && b.len() > 0 && a[0] == b[0] {
        lemma_same_is_equality(a.drop_first(), b.drop_first());
        if a.drop_first() == b.drop_first() {
            assert(a =~= seq![a[0]] + a.drop_first());
            assert(b =~= seq![b[0]] + b.drop_first());
        }
    } else if a.len() == 0 && b.len() == 0 {
        assert(a =~= b);
    }
}

/// Swapping the two names swaps `Before` and `After`.
pub proof fn lemma_relation_mirrors(a: Seq<char>, b: Seq<char>)
    ensures
        relation(a, b) == NameOrder::Before <==> relation(b, a) == NameOrder::After,
        relation(a, b) == NameOrder::After <==> relation(b, a) == NameOrder::Before,
        relation(a, b) == NameOrder::Same <==> relation(b, a) == NameOrder::Same,
    decreases a.len(),
{
    if a.len() > 0 && b.len() > 0 && a[0] == b[0] {
        lemma_relation_mirrors(a.drop_first(), b.drop_first());
    }
}

/// The listing order is transitive.
pub proof fn lemma_precedes_is_transitive(a: Seq<char>, b: Seq<char>, c: Seq<char>)
    requires
        precedes(a, b),
        precedes(b, c),
    ensures
        precedes(a, c),
    decreases a.len(),
{
    if a.len() > 0 && a[0] == b[0] && b[0] == c[0] {
        lemma_precedes_is_transitive(a.drop_first(), b.drop_first(), c.drop_first());
    }
}

/// Of two names exactly one holds: the first comes earlier, they are equal,
/// or the second comes earlier.
pub proof fn lemma_trichotomy(a: Seq<char>, b: Seq<char>)
    ensures
        precedes(a, b) || a == b || precedes(b, a),
        !(precedes(a, b) && a == b),
        !(precedes(b, a) && a == b),
        !(precedes(a, b) && precedes(b, a)),
{
    lemma_same_is_equality(a, b);
    lemma_relation_mirrors(a, b);
}

/// Compares two names in the listing order.
pub fn order_of(a: &str, b: &str) -> (o: NameOrder)
    ensures
        o == relation(a@, b@),
{
    let mut left = a.chars();
    let mut right = b.chars();
    loop
        invariant
            relation(a@, b@) == relation(left.remaining(), right.remaining()),
            left.decrease() is Some,
        decreases left.decrease()->0,
    {
        let x = left.next();
        let y = right.next();
        match (x, y) {
            (None, None) => {
                return NameOrder::Same;
            },
            (None, Some(_)) => {
                return NameOrder::Before;
            },
            (Some(_), None) => {
                return NameOrder::After;
            },
            (Some(c), Some(d)) => {
                if c != d {
                    if c < d {
                        return NameOrder::Before;
                    } else {
                        return NameOrder::After;
                    }
                }
            },
        }
    }
}

} // verus!
