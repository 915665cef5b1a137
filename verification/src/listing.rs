//! Listings: the names of the stored users in the order in which a
//! repository enumerates them, and the two ways of placing a new name.

use vstd::prelude::*;
use crate::name_order::{precedes, lemma_trichotomy, lemma_precedes_is_transitive};

verus! {

/// Every name of the listing comes strictly before the names after it.
/// Such a listing holds no name twice.
pub open spec fn ascending(l: Seq<Seq<char>>) -> bool {
    forall|i: int, j: int| 0 <= i < j < l.len() ==> precedes(#[trigger] l[i], #[trigger] l[j])
}

/// The listing of a map keyed by name once `n` is stored: the names below
/// `n`, then `n`, then the names above `n`. A name equal to `n` is replaced.
pub open spec fn keyed_insert(l: Seq<Seq<char>>, n: Seq<char>) -> Seq<Seq<char>> {
    l.filter(|m: Seq<char>| precedes(m, n)).push(n) + l.filter(|m: Seq<char>| precedes(n, m))
}

/// The listing of a map keyed by name once each of `names` is stored, one
/// after the other.
pub open spec fn keyed_insert_all(l: Seq<Seq<char>>, names: Seq<Seq<char>>) -> Seq<Seq<char>> {
    names.fold_left(l, |acc: Seq<Seq<char>>, n: Seq<char>| keyed_insert(acc, n))
}

/// Placement by key: what a repository backed by a sorted map does with a new
/// name.
pub open spec fn by_key() -> spec_fn(Seq<Seq<char>>, Seq<char>) -> Seq<Seq<char>> {
    |l: Seq<Seq<char>>, n: Seq<char>| keyed_insert(l, n)
}

/// Placement at the end: what a repository backed by a list does with a new
/// name, whether or not the listing holds it already.
pub open spec fn by_arrival() -> spec_fn(Seq<Seq<char>>, Seq<char>) -> Seq<Seq<char>> {
    |l: Seq<Seq<char>>, n: Seq<char>| l.push(n)
}

/// The listing of a list once each of `names` is added, one after the other.
pub open spec fn arrived_all(l: Seq<Seq<char>>, names: Seq<Seq<char>>) -> Seq<Seq<char>> {
    names.fold_left(l, |acc: Seq<Seq<char>>, n: Seq<char>| acc.push(n))
}

/// `k..j` is the place of `n` in `l`: the names before `k` are below `n`, the
/// names from `j` on are above it, and what lies between, at most one name,
/// is `n` itself.
pub open spec fn is_place(l: Seq<Seq<char>>, n: Seq<char>, k: int, j: int) -> bool {
    &&& 0 <= k <= j <= l.len()
    &&& j <= k + 1
    &&& forall|i: int| 0 <= i < k ==> precedes(#[trigger] l[i], n)
    &&& forall|i: int| k <= i < j ==> #[trigger] l[i] == n
    &&& forall|i: int| j <= i < l.len() ==> precedes(n, #[trigger] l[i])
}

proof fn lemma_filter_keeps_all(s: Seq<Seq<char>>, pred: spec_fn(Seq<char>) -> bool)
    requires
        forall|i: int| 0 <= i < s.len() ==> pred(#[trigger] s[i]),
    ensures
        s.filter(pred) == s,
    decreases s.len(),
{
    reveal(Seq::filter);
    if s.len() > 0 {
        lemma_filter_keeps_all(s.drop_last(), pred);
        assert(s.drop_last().push(s.last()) =~= s);
    }
}

proof fn lemma_filter_drops_all(s: Seq<Seq<char>>, pred: spec_fn(Seq<char>) -> bool)
    requires
        forall|i: int| 0 <= i < s.len() ==> !pred(#[trigger] s[i]),
    ensures
        s.filter(pred) == Seq::<Seq<char>>::empty(),
    decreases s.len(),
{
    reveal(Seq::filter);
    if s.len() > 0 {
        lemma_filter_drops_all(s.drop_last(), pred);
    }
}

/// Storing `n` replaces what stands at its place by `n`.
pub proof fn lemma_keyed_insert_at(l: Seq<Seq<char>>, n: Seq<char>, k: int, j: int)
    requires
        is_place(l, n, k, j),
    ensures
        keyed_insert(l, n) == l.subrange(0, k).push(n) + l.subrange(j, l.len() as int),
{
    let below = |m: Seq<char>| precedes(m, n);
    let above = |m: Seq<char>| precedes(n, m);
    let head = l.subrange(0, k);
    let mid = l.subrange(k, j);
    let tail = l.subrange(j, l.len() as int);
    assert(l =~= head + mid + tail);
    assert forall|i: int| 0 <= i < head.len() implies below(#[trigger] head[i]) && !above(
        head[i],
    ) by {
        lemma_trichotomy(head[i], n);
    }
    assert forall|i: int| 0 <= i < mid.len() implies !below(#[trigger] mid[i]) && !above(
        mid[i],
    ) by {
        lemma_trichotomy(mid[i], n);
    }
    assert forall|i: int| 0 <= i < tail.len() implies !below(#[trigger] tail[i]) && above(
        tail[i],
    ) by {
        lemma_trichotomy(tail[i], n);
    }
    lemma_filter_keeps_all(head, below);
    lemma_filter_drops_all(mid, below);
    lemma_filter_drops_all(tail, below);
    lemma_filter_drops_all(head, above);
    lemma_filter_drops_all(mid, above);
    lemma_filter_keeps_all(tail, above);
    Seq::filter_distributes_over_add(head, mid, below);
    Seq::filter_distributes_over_add(head + mid, tail, below);
    Seq::filter_distributes_over_add(head, mid, above);
    Seq::filter_distributes_over_add(head + mid, tail, above);
    assert(l.filter(below) =~= head);
    assert(l.filter(above) =~= tail);
}

/// In an ascending listing every name has a place.
pub proof fn lemma_place_exists(l: Seq<Seq<char>>, n: Seq<char>) -> (place: (int, int))
    requires
        ascending(l),
    ensures
        is_place(l, n, place.0, place.1),
    decreases l.len(),
{
    if l.len() == 0 {
        (0, 0)
    } else {
        let last = l.last();
        let len = l.len() as int;
        lemma_trichotomy(last, n);
        if precedes(last, n) {
            assert forall|i: int| 0 <= i < len implies precedes(#[trigger] l[i], n) by {
                if i < len - 1 {
                    lemma_precedes_is_transitive(l[i], last, n);
                }
            }
            (len, len)
        } else if last == n {
            (len - 1, len)
        } else {
            let front = l.drop_last();
            assert forall|i: int, j: int| 0 <= i < j < front.len() implies precedes(
                #[trigger] front[i],
                #[trigger] front[j],
            ) by {
                assert(front[i] == l[i] && front[j] == l[j]);
            }
            let (k, j) = lemma_place_exists(front, n);
            assert forall|i: int| 0 <= i < k implies precedes(#[trigger] l[i], n) by {
                assert(front[i] == l[i]);
            }
            assert forall|i: int| k <= i < j implies #[trigger] l[i] == n by {
                assert(front[i] == l[i]);
            }
            assert forall|i: int| j <= i < l.len() implies precedes(n, #[trigger] l[i]) by {
                if i < len - 1 {
                    assert(front[i] == l[i]);
                }
            }
            (k, j)
        }
    }
}

/// Storing a name in an ascending listing leaves the listing ascending.
pub proof fn lemma_keyed_insert_ascending(l: Seq<Seq<char>>, n: Seq<char>)
    requires
        ascending(l),
    ensures
        ascending(keyed_insert(l, n)),
{
    let (k, j) = lemma_place_exists(l, n);
    lemma_keyed_insert_at(l, n, k, j);
    let r = keyed_insert(l, n);
    assert forall|a: int, b: int| 0 <= a < b < r.len() implies precedes(
        #[trigger] r[a],
        #[trigger] r[b],
    ) by {
        if b < k {
            assert(r[a] == l[a] && r[b] == l[b]);
        } else if b == k {
            assert(r[a] == l[a] && r[b] == n);
        } else if a < k {
            assert(r[a] == l[a] && r[b] == l[b - k - 1 + j]);
            lemma_precedes_is_transitive(r[a], n, r[b]);
        } else if a == k {
            assert(r[a] == n && r[b] == l[b - k - 1 + j]);
        } else {
            assert(r[a] == l[a - k - 1 + j] && r[b] == l[b - k - 1 + j]);
        }
    }
}

/// After storing `n`, the listing holds the names it held before, and `n`.
pub proof fn lemma_keyed_insert_names(l: Seq<Seq<char>>, n: Seq<char>)
    requires
        ascending(l),
    ensures
        keyed_insert(l, n).to_set() == l.to_set().insert(n),
{
    let (k, j) = lemma_place_exists(l, n);
    lemma_keyed_insert_at(l, n, k, j);
    let r = keyed_insert(l, n);
    assert forall|m: Seq<char>| r.to_set().contains(m) <==> l.to_set().insert(n).contains(
        m,
    ) by {
        if r.contains(m) {
            let a = choose|a: int| 0 <= a < r.len() && r[a] == m;
            if a < k {
                assert(l[a] == m);
            } else if a > k {
                assert(l[a - k - 1 + j] == m);
            }
        }
        if l.contains(m) && m != n {
            let i = choose|i: int| 0 <= i < l.len() && l[i] == m;
            if i < k {
                assert(r[i] == m);
            } else {
                assert(i >= j);
                assert(r[i - j + k + 1] == m);
            }
        }
        if m == n {
            assert(r[k] == m);
        }
    }
    assert(r.to_set() =~= l.to_set().insert(n));
}

/// Storing a name that the listing holds already changes nothing: the entry
/// is replaced, and the listing keeps its length.
pub proof fn lemma_keyed_insert_present(l: Seq<Seq<char>>, n: Seq<char>)
    requires
        ascending(l),
        l.contains(n),
    ensures
        keyed_insert(l, n) == l,
        keyed_insert(l, n).len() == l.len(),
{
    let (k, j) = lemma_place_exists(l, n);
    lemma_keyed_insert_at(l, n, k, j);
    let i = choose|i: int| 0 <= i < l.len() && l[i] == n;
    lemma_trichotomy(l[i], n);
    assert(k <= i < j);
    assert(keyed_insert(l, n) =~= l);
}

/// Storing a name that the listing does not hold makes it one longer.
pub proof fn lemma_keyed_insert_absent(l: Seq<Seq<char>>, n: Seq<char>)
    requires
        ascending(l),
        !l.contains(n),
    ensures
        keyed_insert(l, n).len() == l.len() + 1,
{
    let (k, j) = lemma_place_exists(l, n);
    lemma_keyed_insert_at(l, n, k, j);
    if k < j {
        assert(l[k] == n);
    }
}

/// Two ascending listings of the same names are the same listing.
pub proof fn lemma_ascending_is_determined_by_names(a: Seq<Seq<char>>, b: Seq<Seq<char>>)
    requires
        ascending(a),
        ascending(b),
        a.to_set() == b.to_set(),
    ensures
        a == b,
    decreases a.len(),
{
    if a.len() == 0 {
        if b.len() > 0 {
            assert(b.to_set().contains(b[0]));
            assert(a.contains(b[0]));
        }
        assert(a =~= b);
    } else if b.len() == 0 {
        assert(a.to_set().contains(a[0]));
        assert(b.contains(a[0]));
    } else {
        let x = a.last();
        let y = b.last();
        assert(a.to_set().contains(x));
        assert(b.to_set().contains(y));
        assert(b.contains(x));
        assert(a.contains(y));
        let i = choose|i: int| 0 <= i < b.len() && b[i] == x;
        let j = choose|j: int| 0 <= j < a.len() && a[j] == y;
        lemma_trichotomy(x, y);
        assert(x == y) by {
            if i < b.len() - 1 {
                assert(precedes(b[i], b[b.len() - 1]));
            }
            if j < a.len() - 1 {
                assert(precedes(a[j], a[a.len() - 1]));
            }
        }
        let fa = a.drop_last();
        let fb = b.drop_last();
        assert forall|p: int, q: int| 0 <= p < q < fa.len() implies precedes(
            #[trigger] fa[p],
            #[trigger] fa[q],
        ) by {
            assert(fa[p] == a[p] && fa[q] == a[q]);
        }
        assert forall|p: int, q: int| 0 <= p < q < fb.len() implies precedes(
            #[trigger] fb[p],
            #[trigger] fb[q],
        ) by {
            assert(fb[p] == b[p] && fb[q] == b[q]);
        }
        assert forall|m: Seq<char>| fa.to_set().contains(m) <==> fb.to_set().contains(m) by {
            if fa.contains(m) {
                let p = choose|p: int| 0 <= p < fa.len() && fa[p] == m;
                assert(a[p] == m);
                assert(precedes(a[p], a[a.len() - 1]));
                lemma_trichotomy(m, x);
                assert(a.to_set().contains(m));
                assert(b.contains(m));
                let q = choose|q: int| 0 <= q < b.len() && b[q] == m;
                assert(q < b.len() - 1);
                assert(fb[q] == m);
            }
            if fb.contains(m) {
                let p = choose|p: int| 0 <= p < fb.len() && fb[p] == m;
                assert(b[p] == m);
                assert(precedes(b[p], b[b.len() - 1]));
                lemma_trichotomy(m, y);
                assert(b.to_set().contains(m));
                assert(a.contains(m));
                let q = choose|q: int| 0 <= q < a.len() && a[q] == m;
                assert(q < a.len() - 1);
                assert(fa[q] == m);
            }
        }
        assert(fa.to_set() =~= fb.to_set());
        lemma_ascending_is_determined_by_names(fa, fb);
        assert(a =~= fa.push(x));
        assert(b =~= fb.push(y));
    }
}

/// Storing names one after the other keeps an ascending listing ascending,
/// and the listing then holds the names it held before and the stored ones.
pub proof fn lemma_keyed_insert_all(l: Seq<Seq<char>>, names: Seq<Seq<char>>)
    requires
        ascending(l),
    ensures
        ascending(keyed_insert_all(l, names)),
        keyed_insert_all(l, names).to_set() == l.to_set().union(names.to_set()),
    decreases names.len(),
{
    let step = |acc: Seq<Seq<char>>, n: Seq<char>| keyed_insert(acc, n);
    if names.len() == 0 {
        assert(names.to_set() =~= Set::<Seq<char>>::empty());
        assert(l.to_set().union(names.to_set()) =~= l.to_set());
    } else {
        let front = names.drop_last();
        let before = keyed_insert_all(l, front);
        lemma_keyed_insert_all(l, front);
        lemma_keyed_insert_ascending(before, names.last());
        lemma_keyed_insert_names(before, names.last());
        assert(keyed_insert_all(l, names) == keyed_insert(before, names.last()));
        assert forall|m: Seq<char>| names.to_set().contains(m) <==> front.to_set().insert(
            names.last(),
        ).contains(m) by {
            if names.contains(m) {
                let i = choose|i: int| 0 <= i < names.len() && names[i] == m;
                if i < names.len() - 1 {
                    assert(front[i] == m);
                }
            }
            if front.contains(m) {
                let i = choose|i: int| 0 <= i < front.len() && front[i] == m;
                assert(names[i] == m);
            }
            if m == names.last() {
                assert(names[names.len() - 1] == m);
            }
        }
        assert(names.to_set() =~= front.to_set().insert(names.last()));
        assert(keyed_insert_all(l, names).to_set() =~= l.to_set().union(names.to_set()));
    }
}

/// What a map keyed by name lists does not depend on the order in which the
/// names were stored, nor on how often: only on which names were stored.
pub proof fn lemma_keyed_listing_ignores_arrival(
    l: Seq<Seq<char>>,
    first: Seq<Seq<char>>,
    second: Seq<Seq<char>>,
)
    requires
        ascending(l),
        first.to_set() == second.to_set(),
    ensures
        keyed_insert_all(l, first) == keyed_insert_all(l, second),
        ascending(keyed_insert_all(l, first)),
{
    lemma_keyed_insert_all(l, first);
    lemma_keyed_insert_all(l, second);
    lemma_ascending_is_determined_by_names(
        keyed_insert_all(l, first),
        keyed_insert_all(l, second),
    );
}

/// A list lists what it held before, and then the names added to it, in the
/// order in which they were added.
pub proof fn lemma_arrival_is_kept(l: Seq<Seq<char>>, names: Seq<Seq<char>>)
    ensures
        arrived_all(l, names) == l + names,
    decreases names.len(),
{
    if names.len() == 0 {
        assert(l + names =~= l);
    } else {
        lemma_arrival_is_kept(l, names.drop_last());
        assert(l + names =~= (l + names.drop_last()).push(names.last()));
    }
}

} // verus!
