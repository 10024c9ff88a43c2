//! Stable sorting of lists by a strict order on the items' views.

use vstd::prelude::*;

verus! {

/// A type whose values are ranked by a strict weak order on their views.
pub trait Ranked: View + Sized {
    /// `a` goes strictly before `b`.
    spec fn before(a: Self::V, b: Self::V) -> bool;

    /// `before` is irreflexive and transitive, and so is "neither goes
    /// before the other".
    proof fn before_is_strict_weak_order(a: Self::V, b: Self::V, c: Self::V)
        ensures
            !Self::before(a, a),
            Self::before(a, b) && Self::before(b, c) ==> Self::before(a, c),
            !Self::before(a, b) && !Self::before(b, c) ==> !Self::before(a, c),
    ;

    /// Whether `self` goes strictly before `other`.
    fn goes_before(&self, other: &Self) -> (r: bool)
        ensures
            r == Self::before(self@, other@),
    ;
}

/// The views of a list of values.
pub open spec fn views_of<T: View>(items: Seq<T>) -> Seq<T::V> {
    Seq::new(items.len(), |i: int| items[i]@)
}

/// `x` put into the sorted list `s`: behind every item that does not go
/// after it.
pub open spec fn inserted<T: Ranked>(s: Seq<T::V>, x: T::V) -> Seq<T::V>
    decreases s.len(),
{
    if s.len() > 0 && T::before(x, s.last()) {
        inserted::<T>(s.drop_last(), x).push(s.last())
    } else {
        s.push(x)
    }
}

/// The items of `s` in sorted order; items of which neither goes before the
/// other keep the order they have in `s`.
pub open spec fn sorted<T: Ranked>(s: Seq<T::V>) -> Seq<T::V>
    decreases s.len(),
{
    if s.len() == 0 {
        s
    } else {
        inserted::<T>(sorted::<T>(s.drop_last()), s.last())
    }
}

/// No item of `s` goes before an item that stands earlier in `s`.
pub open spec fn in_order<T: Ranked>(s: Seq<T::V>) -> bool {
    forall|i: int, j: int| 0 <= i < j < s.len() ==> !T::before(s[j], s[i])
}

/// Where `x` lands when it is put into `s`.
pub proof fn lemma_inserted_at<T: Ranked>(s: Seq<T::V>, x: T::V, p: int)
    requires
        0 <= p <= s.len(),
        forall|j: int| p <= j < s.len() ==> T::before(x, s[j]),
        p > 0 ==> !T::before(x, s[p - 1]),
    ensures
        inserted::<T>(s, x) == s.insert(p, x),
    decreases s.len() - p,
{
    if p == s.len() {
        assert(s.push(x) =~= s.insert(p, x));
    } else {
        lemma_inserted_at::<T>(s.drop_last(), x, p);
        assert(s.drop_last().insert(p, x).push(s.last()) =~= s.insert(p, x));
    }
}

/// Putting an item into a list keeps the list's length plus one, keeps the
/// items, and keeps the list in order.
pub proof fn lemma_inserted<T: Ranked>(s: Seq<T::V>, x: T::V)
    ensures
        inserted::<T>(s, x).len() == s.len() + 1,
        inserted::<T>(s, x).to_multiset() == s.to_multiset().insert(x),
        in_order::<T>(s) ==> in_order::<T>(inserted::<T>(s, x)),
    decreases s.len(),
{
    broadcast use vstd::seq_lib::group_to_multiset_ensures;

    if s.len() > 0 && T::before(x, s.last()) {
        let front = s.drop_last();
        let r = inserted::<T>(front, x);
        lemma_inserted::<T>(front, x);
        assert(s =~= front.push(s.last()));
        assert(s.to_multiset() =~= front.to_multiset().insert(s.last()));
        assert(r.push(s.last()).to_multiset() =~= s.to_multiset().insert(x));
        if in_order::<T>(s) {
            assert(in_order::<T>(front)) by {
                assert forall|i: int, j: int| 0 <= i < j < front.len() implies !T::before(
                    front[j],
                    front[i],
                ) by {
                    assert(front[i] == s[i] && front[j] == s[j]);
                }
            }
            let out = r.push(s.last());
            assert forall|i: int, j: int| 0 <= i < j < out.len() implies !T::before(
                out[j],
                out[i],
            ) by {
                if j < r.len() {
                    assert(out[i] == r[i] && out[j] == r[j]);
                } else {
                    // out[j] is the old last item; out[i] is x or an item of front
                    assert(r.to_multiset().count(r[i]) > 0);
                    if r[i] == x {
                        T::before_is_strict_weak_order(s.last(), x, x);
                        T::before_is_strict_weak_order(x, s.last(), x);
                    } else {
                        assert(front.to_multiset().count(r[i]) > 0);
                        assert(front.contains(r[i]));
                        let k = choose|k: int| 0 <= k < front.len() && front[k] == r[i];
                        assert(s[k] == r[i]);
                        assert(!T::before(s[s.len() - 1], s[k]));
                    }
                }
            }
        }
    } else {
        if in_order::<T>(s) {
            let out = s.push(x);
            assert forall|i: int, j: int| 0 <= i < j < out.len() implies !T::before(
                out[j],
                out[i],
            ) by {
                if j < s.len() {
                    assert(out[i] == s[i] && out[j] == s[j]);
                } else {
                    // !before(x, s.last()) and !before(s.last(), s[i])
                    if i < s.len() - 1 {
                        assert(!T::before(s[s.len() - 1], s[i]));
                        T::before_is_strict_weak_order(x, s.last(), s[i]);
                    }
                }
            }
        }
    }
}

/// A sorted list has the items of the list it was made from, and stands in
/// order.
pub proof fn lemma_sorted<T: Ranked>(s: Seq<T::V>)
    ensures
        sorted::<T>(s).len() == s.len(),
        sorted::<T>(s).to_multiset() == s.to_multiset(),
        in_order::<T>(sorted::<T>(s)),
    decreases s.len(),
{
    broadcast use vstd::seq_lib::group_to_multiset_ensures;

    if s.len() > 0 {
        lemma_sorted::<T>(s.drop_last());
        lemma_inserted::<T>(sorted::<T>(s.drop_last()), s.last());
        assert(s =~= s.drop_last().push(s.last()));
    }
}

/// The first item of a sorted list: no item of the list goes before it, and
/// it is the earliest such item of the list.
pub proof fn lemma_sorted_first<T: Ranked>(s: Seq<T::V>)
    requires
        s.len() > 0,
    ensures
        sorted::<T>(s).len() == s.len(),
        exists|w: int|
            0 <= w < s.len() && s[w] == sorted::<T>(s)[0] && (forall|j: int|
                0 <= j < s.len() ==> !T::before(#[trigger] s[j], s[w])) && (forall|j: int|
                0 <= j < w ==> T::before(#[trigger] s[j], s[w]) || T::before(s[w], s[j])),
    decreases s.len(),
{
    lemma_sorted::<T>(s);
    let front = s.drop_last();
    let x = s.last();
    if front.len() == 0 {
        assert(sorted::<T>(front) =~= front);
        assert(sorted::<T>(s)[0] == s[0]);
        assert forall|j: int| 0 <= j < s.len() implies !T::before(#[trigger] s[j], s[0]) by {
            T::before_is_strict_weak_order(s[0], s[0], s[0]);
        }
    } else {
        lemma_sorted_first::<T>(front);
        lemma_sorted::<T>(front);
        let sf = sorted::<T>(front);
        let w0 = choose|w: int|
            0 <= w < front.len() && front[w] == sf[0] && (forall|j: int|
                0 <= j < front.len() ==> !T::before(#[trigger] front[j], front[w])) && (forall|
                j: int,
            |
                0 <= j < w ==> T::before(#[trigger] front[j], front[w]) || T::before(
                    front[w],
                    front[j],
                ));
        lemma_inserted_head::<T>(sf, x);
        if T::before(x, sf[0]) {
            let w = s.len() - 1;
            assert(sorted::<T>(s)[0] == s[w]);
            assert forall|j: int| 0 <= j < s.len() implies !T::before(#[trigger] s[j], s[w]) by {
                if j < front.len() {
                    assert(s[j] == front[j]);
                    // !before(front[j], sf[0]) and before(x, sf[0])
                    T::before_is_strict_weak_order(x, sf[0], sf[0]);
                    if T::before(front[j], x) {
                        T::before_is_strict_weak_order(front[j], x, sf[0]);
                    }
                } else {
                    T::before_is_strict_weak_order(x, x, x);
                }
            }
            assert forall|j: int| 0 <= j < w implies T::before(#[trigger] s[j], s[w]) || T::before(
                s[w],
                s[j],
            ) by {
                assert(s[j] == front[j]);
                // x before sf[0], and front[j] not before sf[0]: x before front[j]
                if !T::before(x, front[j]) {
                    T::before_is_strict_weak_order(x, front[j], sf[0]);
                }
            }
        } else {
            assert(sorted::<T>(s)[0] == s[w0]);
            assert forall|j: int| 0 <= j < s.len() implies !T::before(#[trigger] s[j], s[w0]) by {
                if j < front.len() {
                    assert(s[j] == front[j]);
                }
            }
            assert forall|j: int| 0 <= j < w0 implies T::before(#[trigger] s[j], s[w0])
                || T::before(s[w0], s[j]) by {
                assert(s[j] == front[j]);
            }
        }
    }
}

/// The head of a list after an item was put into it.
pub proof fn lemma_inserted_head<T: Ranked>(s: Seq<T::V>, x: T::V)
    requires
        s.len() > 0,
        in_order::<T>(s),
    ensures
        inserted::<T>(s, x)[0] == (if T::before(x, s[0]) {
            x
        } else {
            s[0]
        }),
    decreases s.len(),
{
    lemma_inserted::<T>(s, x);
    if T::before(x, s.last()) {
        let front = s.drop_last();
        if front.len() == 0 {
            assert(inserted::<T>(front, x) =~= seq![x]);
        } else {
            assert(in_order::<T>(front)) by {
                assert forall|i: int, j: int| 0 <= i < j < front.len() implies !T::before(
                    front[j],
                    front[i],
                ) by {
                    assert(front[i] == s[i] && front[j] == s[j]);
                }
            }
            lemma_inserted_head::<T>(front, x);
            lemma_inserted::<T>(front, x);
            assert(front[0] == s[0]);
        }
    } else {
        // x stays behind the last item, which does not go before the head
        if s.len() > 1 {
            assert(!T::before(s[s.len() - 1], s[0]));
            T::before_is_strict_weak_order(x, s.last(), s[0]);
        }
    }
}

/// Sorts a list; items of which neither goes before the other keep their
/// order.
pub fn sort<T: Ranked>(items: Vec<T>) -> (out: Vec<T>)
    ensures
        views_of(out@) == sorted::<T>(views_of(items@)),
        out@.len() == items@.len(),
        out@.to_multiset() == items@.to_multiset(),
        in_order::<T>(views_of(out@)),
{
    broadcast use vstd::seq_lib::group_to_multiset_ensures;

    let ghost orig = items@;
    let mut rest = items;
    let mut out: Vec<T> = Vec::new();
    let ghost mut done: int = 0;
    assert(views_of(orig).take(0) =~= Seq::<T::V>::empty());
    assert(orig.take(0) =~= Seq::<T>::empty());
    assert(views_of(out@) =~= Seq::<T::V>::empty());
    while rest.len() > 0
        invariant
            0 <= done <= orig.len(),
            rest@ == orig.skip(done),
            out@.len() == done,
            views_of(out@) == sorted::<T>(views_of(orig).take(done)),
            out@.to_multiset() == orig.take(done).to_multiset(),
        decreases rest@.len(),
    {
        let x = rest.remove(0);
        assert(x == orig[done]);
        let mut p: usize = out.len();
        while p > 0 && x.goes_before(&out[p - 1])
            invariant
                p <= out@.len(),
                forall|j: int| p <= j < out@.len() ==> T::before(x@, #[trigger] out@[j]@),
            decreases p,
        {
            p -= 1;
        }
        proof {
            let s = views_of(out@);
            assert forall|j: int| p <= j < s.len() implies T::before(x@, s[j]) by {
                assert(s[j] == out@[j]@);
            }
            lemma_inserted_at::<T>(s, x@, p as int);
            assert(views_of(out@.insert(p as int, x)) =~= s.insert(p as int, x@));
            let pre = views_of(orig).take(done + 1);
            assert(pre.drop_last() =~= views_of(orig).take(done));
            assert(pre.last() == x@);
            assert(orig.take(done + 1) =~= orig.take(done).push(x));
            assert(rest@ =~= orig.skip(done + 1));
        }
        let ghost before_insert = out@;
        out.insert(p, x);
        proof {
            vstd::seq_lib::to_multiset_insert(before_insert, p as int, x);
            vstd::seq_lib::to_multiset_build(orig.take(done), x);
            done = done + 1;
        }
    }
    proof {
        assert(views_of(orig).take(done) =~= views_of(orig));
        assert(orig.take(done) =~= orig);
        lemma_sorted::<T>(views_of(orig));
    }
    out
}

} // verus!
