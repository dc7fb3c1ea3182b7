//! Sequences of rows: where the first row of a kind stands, and how the views of rows
//! follow the rows through the changes that the catalog makes.

use vstd::prelude::*;

verus! {

/// Whether `i` is the place of the first element of `s` that meets `p`.
pub open spec fn is_first<T>(s: Seq<T>, p: spec_fn(T) -> bool, i: int) -> bool {
    &&& 0 <= i < s.len()
    &&& p(s[i])
    &&& forall|j: int| 0 <= j < i ==> !p(#[trigger] s[j])
}

/// The place of the first element of `s` that meets `p`, if there is one.
pub open spec fn position<T>(s: Seq<T>, p: spec_fn(T) -> bool) -> Option<int> {
    if exists|i: int| is_first(s, p, i) {
        Some(choose|i: int| is_first(s, p, i))
    } else {
        None
    }
}

/// The first element of `s` that meets `p`, if there is one.
pub open spec fn find<T>(s: Seq<T>, p: spec_fn(T) -> bool) -> Option<T> {
    match position(s, p) {
        Some(i) => Some(s[i]),
        None => None,
    }
}

/// Whether some element of `s` meets `p`.
pub open spec fn any<T>(s: Seq<T>, p: spec_fn(T) -> bool) -> bool {
    exists|i: int| 0 <= i < s.len() && p(#[trigger] s[i])
}

/// The first place is the only first place.
pub proof fn lemma_position_is<T>(s: Seq<T>, p: spec_fn(T) -> bool, i: int)
    requires
        is_first(s, p, i),
    ensures
        position(s, p) == Some(i),
        find(s, p) == Some(s[i]),
        any(s, p),
{
    let c = choose|k: int| is_first(s, p, k);
    assert(is_first(s, p, c));
    if c < i {
        assert(!p(s[c]));
    }
    if i < c {
        assert(!p(s[i]));
    }
}

/// Where no element meets `p`, there is no first place.
pub proof fn lemma_position_none<T>(s: Seq<T>, p: spec_fn(T) -> bool)
    requires
        forall|j: int| 0 <= j < s.len() ==> !p(#[trigger] s[j]),
    ensures
        position(s, p) is None,
        find(s, p) is None,
        !any(s, p),
{
}

/// A first place exists exactly where some element meets `p`.
pub proof fn lemma_position_any<T>(s: Seq<T>, p: spec_fn(T) -> bool)
    ensures
        position(s, p) is Some <==> any(s, p),
        position(s, p) matches Some(i) ==> is_first(s, p, i),
    decreases s.len(),
{
    if any(s, p) {
        let k = choose|k: int| 0 <= k < s.len() && p(#[trigger] s[k]);
        lemma_least(s, p, k);
    }
}

/// Below any element that meets `p` stands a first one.
proof fn lemma_least<T>(s: Seq<T>, p: spec_fn(T) -> bool, k: int)
    requires
        0 <= k < s.len(),
        p(s[k]),
    ensures
        exists|i: int| is_first(s, p, i),
    decreases k,
{
    if exists|j: int| 0 <= j < k && p(#[trigger] s[j]) {
        let j = choose|j: int| 0 <= j < k && p(#[trigger] s[j]);
        lemma_least(s, p, j);
    } else {
        assert(is_first(s, p, k));
    }
}

/// The views of the elements of `s`, in order.
pub open spec fn views<T: View>(s: Seq<T>) -> Seq<T::V> {
    s.map_values(|x: T| x@)
}

/// Views follow a push.
pub proof fn lemma_views_push<T: View>(s: Seq<T>, x: T)
    ensures
        views(s.push(x)) == views(s).push(x@),
{
    assert(views(s.push(x)) =~= views(s).push(x@));
}

/// Views follow an update.
pub proof fn lemma_views_update<T: View>(s: Seq<T>, i: int, x: T)
    requires
        0 <= i < s.len(),
    ensures
        views(s.update(i, x)) == views(s).update(i, x@),
{
    assert(views(s.update(i, x)) =~= views(s).update(i, x@));
}

/// Views follow a removal.
pub proof fn lemma_views_remove<T: View>(s: Seq<T>, i: int)
    requires
        0 <= i < s.len(),
    ensures
        views(s.remove(i)) == views(s).remove(i),
{
    assert(views(s.remove(i)) =~= views(s).remove(i));
}

/// A prefix that is one longer is the prefix with one more element.
pub proof fn lemma_take_next<T>(s: Seq<T>, n: int)
    requires
        0 <= n < s.len(),
    ensures
        s.take(n + 1) == s.take(n).push(s[n]),
{
    assert(s.take(n + 1) =~= s.take(n).push(s[n]));
}

/// Filtering a prefix that is one longer.
pub proof fn lemma_filter_next<T>(s: Seq<T>, p: spec_fn(T) -> bool, n: int)
    requires
        0 <= n < s.len(),
    ensures
        s.take(n + 1).filter(p) == if p(s[n]) {
            s.take(n).filter(p).push(s[n])
        } else {
            s.take(n).filter(p)
        },
{
    lemma_take_next(s, n);
    Seq::lemma_filter_push(s.take(n), s[n], p);
}

/// The empty prefix holds nothing to filter.
pub proof fn lemma_filter_none<T>(s: Seq<T>, p: spec_fn(T) -> bool)
    ensures
        s.take(0).filter(p) == Seq::<T>::empty(),
        s.take(s.len() as int) == s,
{
    reveal(Seq::filter);
    assert(s.take(0) =~= Seq::<T>::empty());
    assert(s.take(s.len() as int) =~= s);
}

/// Whether the element at `i` is among the first `cap` elements of `s` that meet `p`.
pub open spec fn among_first<T>(s: Seq<T>, p: spec_fn(T) -> bool, cap: nat, i: int) -> bool {
    &&& 0 <= i < s.len()
    &&& p(s[i])
    &&& s.take(i).filter(p).len() < cap
}

/// The places of `s` that are not among the first `cap` that meet `p`.
pub open spec fn beyond_first<T>(s: Seq<T>, p: spec_fn(T) -> bool, cap: nat) -> spec_fn(
    int,
) -> bool {
    |i: int| !among_first(s, p, cap, i)
}

/// The first `cap` elements of `s` that meet `p`; all that meet it where they are fewer.
pub open spec fn first_matching<T>(s: Seq<T>, p: spec_fn(T) -> bool, cap: nat) -> Seq<T> {
    let matching = s.filter(p);
    if matching.len() <= cap {
        matching
    } else {
        matching.take(cap as int)
    }
}

/// The elements of `s` at the places that `keep` admits, in order.
pub open spec fn keep_where<T>(s: Seq<T>, keep: spec_fn(int) -> bool) -> Seq<T>
    decreases s.len(),
{
    if s.len() == 0 {
        s
    } else {
        let front = keep_where(s.drop_last(), keep);
        if keep(s.len() - 1) {
            front.push(s.last())
        } else {
            front
        }
    }
}

/// The first matching elements of a prefix that is one longer.
pub proof fn lemma_first_matching_next<T>(s: Seq<T>, p: spec_fn(T) -> bool, cap: nat, n: int)
    requires
        0 <= n < s.len(),
    ensures
        first_matching(s.take(n + 1), p, cap) == if among_first(s, p, cap, n) {
            first_matching(s.take(n), p, cap).push(s[n])
        } else {
            first_matching(s.take(n), p, cap)
        },
        first_matching(s.take(n), p, cap).len() == if s.take(n).filter(p).len() <= cap {
            s.take(n).filter(p).len()
        } else {
            cap
        },
{
    lemma_filter_next(s, p, n);
    let m = s.take(n).filter(p);
    if p(s[n]) {
        if m.len() >= cap {
            assert(m.push(s[n]).take(cap as int) =~= m.take(cap as int));
            if m.len() == cap {
                assert(m.take(cap as int) =~= m);
            }
        }
    }
}

/// The kept elements of a prefix that is one longer.
pub proof fn lemma_keep_where_next<T>(s: Seq<T>, keep: spec_fn(int) -> bool, n: int)
    requires
        0 <= n < s.len(),
    ensures
        keep_where(s.take(n + 1), keep) == if keep(n) {
            keep_where(s.take(n), keep).push(s[n])
        } else {
            keep_where(s.take(n), keep)
        },
{
    assert(s.take(n + 1).drop_last() =~= s.take(n));
    assert(s.take(n + 1).last() == s[n]);
}

/// Where the first element that meets `p` stands after a push.
pub proof fn lemma_position_push<T>(s: Seq<T>, x: T, p: spec_fn(T) -> bool)
    ensures
        position(s.push(x), p) == match position(s, p) {
            Some(i) => Some(i),
            None => if p(x) {
                Some(s.len() as int)
            } else {
                None
            },
        },
        find(s.push(x), p) == match find(s, p) {
            Some(v) => Some(v),
            None => if p(x) {
                Some(x)
            } else {
                None
            },
        },
{
    lemma_position_any(s, p);
    let after = s.push(x);
    match position(s, p) {
        Some(i) => {
            assert forall|j: int| 0 <= j < i implies !p(#[trigger] after[j]) by {
                assert(after[j] == s[j]);
            }
            assert(after[i] == s[i]);
            lemma_position_is(after, p, i);
        },
        None => {
            assert forall|j: int| 0 <= j < s.len() implies !p(#[trigger] after[j]) by {
                assert(after[j] == s[j]);
                assert(!p(s[j]));
            }
            if p(x) {
                lemma_position_is(after, p, s.len() as int);
            } else {
                lemma_position_none(after, p);
            }
        },
    }
}

/// Where the first element that meets `p` stands after an update that leaves it to every
/// element whether it meets `p`.
pub proof fn lemma_position_update<T>(s: Seq<T>, k: int, y: T, p: spec_fn(T) -> bool)
    requires
        0 <= k < s.len(),
        p(y) == p(s[k]),
    ensures
        position(s.update(k, y), p) == position(s, p),
        find(s.update(k, y), p) == if position(s, p) == Some(k) {
            Some(y)
        } else {
            find(s, p)
        },
{
    lemma_position_any(s, p);
    let after = s.update(k, y);
    match position(s, p) {
        Some(i) => {
            assert forall|j: int| 0 <= j < i implies !p(#[trigger] after[j]) by {
                assert(!p(s[j]));
            }
            lemma_position_is(after, p, i);
        },
        None => {
            assert forall|j: int| 0 <= j < s.len() implies !p(#[trigger] after[j]) by {
                assert(!p(s[j]));
            }
            lemma_position_none(after, p);
        },
    }
}

} // verus!
