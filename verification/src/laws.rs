//! Properties that relate several operations of the two-slice types.
//!
//! A law about results of calls takes those results as parameters and
//! requires of them what the contracts of the calls promise, so that it
//! applies to whatever the calls returned.
use vstd::prelude::*;

use crate::immutable::{BiSlice, Iter};
use crate::mutable::{BiSliceMut, IterMut};
use crate::immutable::{lemma_prefix_sum_monotone, lemma_prefix_sum_step, prefix_sum};
use crate::Bound;
use vstd::std_specs::convert::FromSpec;

verus! {

/// Turning two slices into a two-slice and back gives the same two slices,
/// and turning a two-slice into its two slices and back gives the same
/// two-slice.
pub proof fn law_pair_conversion_round_trip<'a, T>(a: &'a [T], b: &'a [T], s: BiSlice<'a, T>)
    ensures
        <(&'a [T], &'a [T]) as FromSpec<BiSlice<'a, T>>>::from_spec(
            <BiSlice<'a, T> as FromSpec<(&'a [T], &'a [T])>>::from_spec((a, b)),
        ) == (a, b),
        <BiSlice<'a, T> as FromSpec<(&'a [T], &'a [T])>>::from_spec(
            <(&'a [T], &'a [T]) as FromSpec<BiSlice<'a, T>>>::from_spec(s),
        ) == s,
{
    crate::immutable::lemma_pair_round_trip(a, b, s);
}

/// The indices `[lo, hi)` that `range` selects in a sequence of length `len`.
pub open spec fn range_indices(range: (Bound, Bound), len: int) -> (int, int) {
    (range.0.start_index(), range.1.end_index(len))
}

/// The halves that `s.split_at(mid)` gives are the parts that
/// `s.slice((Unbounded, Excluded(mid)))` and `s.slice((Included(mid),
/// Unbounded))` give.
pub proof fn law_split_at_agrees_with_slice<'a, T>(
    s: BiSlice<'a, T>,
    mid: usize,
    left: BiSlice<'a, T>,
    right: BiSlice<'a, T>,
    before: BiSlice<'a, T>,
    after: BiSlice<'a, T>,
)
    requires
        mid <= s@.len(),
        left@ == s@.take(mid as int),
        right@ == s@.skip(mid as int),
        ({
            let (lo, hi) = range_indices((Bound::Unbounded, Bound::Excluded(mid)), s@.len() as int);
            before@ == s@.subrange(lo, hi)
        }),
        ({
            let (lo, hi) = range_indices((Bound::Included(mid), Bound::Unbounded), s@.len() as int);
            after@ == s@.subrange(lo, hi)
        }),
    ensures
        left@ == before@,
        right@ == after@,
{
}

/// Slicing the part that `s.slice(outer)` gave with `inner` gives the part
/// of `s` that starts at the start of `outer` plus the start of `inner`.
pub proof fn law_slice_of_slice<'a, T>(
    s: BiSlice<'a, T>,
    outer: (Bound, Bound),
    t: BiSlice<'a, T>,
    inner: (Bound, Bound),
    u: BiSlice<'a, T>,
)
    requires
        ({
            let (lo, hi) = range_indices(outer, s@.len() as int);
            0 <= lo <= hi <= s@.len() && t@ == s@.subrange(lo, hi)
        }),
        ({
            let (lo, hi) = range_indices(inner, t@.len() as int);
            0 <= lo <= hi <= t@.len() && u@ == t@.subrange(lo, hi)
        }),
    ensures
        ({
            let (lo1, _) = range_indices(outer, s@.len() as int);
            let (lo2, hi2) = range_indices(inner, t@.len() as int);
            u@ == s@.subrange(lo1 + lo2, lo1 + hi2)
        }),
{
    let (lo1, hi1) = range_indices(outer, s@.len() as int);
    let (lo2, hi2) = range_indices(inner, t@.len() as int);
    assert(s@.subrange(lo1, hi1).subrange(lo2, hi2) =~= s@.subrange(lo1 + lo2, lo1 + hi2));
}

/// How many of `moves` are steps from the front.
pub open spec fn front_steps(moves: Seq<bool>) -> nat
    decreases moves.len(),
{
    if moves.len() == 0 {
        0
    } else {
        front_steps(moves.drop_last()) + if moves.last() {
            1nat
        } else {
            0nat
        }
    }
}

/// `after` is what is left of `before` once one element is taken from the
/// front (`from_front`) or from the back.
pub open spec fn one_step<T>(before: Seq<T>, after: Seq<T>, from_front: bool) -> bool {
    &&& before.len() > 0
    &&& from_front ==> after == before.drop_first()
    &&& !from_front ==> after == before.drop_last()
}

/// The run of iterator views that `law_iter_walk` speaks of ends in the
/// part of the first view without the elements taken from either end.
proof fn lemma_views_walk<T>(views: Seq<Seq<T>>, moves: Seq<bool>)
    requires
        views.len() == moves.len() + 1,
        forall|k: int| 0 <= k < moves.len() ==> #[trigger] one_step(views[k], views[k + 1], moves[k]),
    ensures
        ({
            let i = front_steps(moves) as int;
            let j = moves.len() - i;
            &&& i + j <= views[0].len()
            &&& views.last() == views[0].subrange(i, views[0].len() - j)
        }),
    decreases moves.len(),
{
    if moves.len() == 0 {
        assert(views[0].subrange(0, views[0].len() as int) =~= views[0]);
    } else {
        let k = moves.len() - 1;
        let fewer = views.drop_last();
        let shorter = moves.drop_last();
        assert forall|m: int| 0 <= m < shorter.len() implies #[trigger] one_step(
            fewer[m],
            fewer[m + 1],
            shorter[m],
        ) by {
            assert(one_step(views[m], views[m + 1], moves[m]));
        }
        lemma_views_walk(fewer, shorter);
        lemma_front_steps_bound(shorter);
        assert(fewer[0] == views[0]);
        assert(fewer.last() == views[k]);
        assert(one_step(views[k], views[k + 1], moves[k]));
        let i0 = front_steps(shorter) as int;
        let j0 = shorter.len() - i0;
        let n = views[0].len() as int;
        assert(views[k] == views[0].subrange(i0, n - j0));
        assert(views[k].len() > 0);
        if moves[k] {
            assert(views[k + 1] == views[k].drop_first());
            assert(views[0].subrange(i0, n - j0).drop_first() =~= views[0].subrange(i0 + 1, n - j0));
        } else {
            assert(views[k + 1] == views[k].drop_last());
            assert(views[0].subrange(i0, n - j0).drop_last() =~= views[0].subrange(i0, n - j0 - 1));
        }
    }
}

/// After any interleaving of calls of `next` (a `true` move) and
/// `next_back` (a `false` move) that each gave an element, starting from
/// `its[0]`, what `as_ref` shows of the iterator is what was left at the
/// start without the `i` elements taken from the front and the `j` taken
/// from the back.
pub proof fn law_iter_walk<'a, T>(its: Seq<Iter<'a, T>>, moves: Seq<bool>, shown: BiSlice<'a, T>)
    requires
        its.len() == moves.len() + 1,
        forall|k: int|
            0 <= k < moves.len() ==> {
                &&& (#[trigger] its[k])@.len() > 0
                &&& moves[k] ==> its[k + 1]@ == its[k]@.drop_first()
                &&& !moves[k] ==> its[k + 1]@ == its[k]@.drop_last()
            },
        shown.front() == its.last().front(),
        shown.back() == its.last().back(),
    ensures
        ({
            let i = front_steps(moves) as int;
            let j = moves.len() - i;
            &&& i + j <= its[0]@.len()
            &&& shown@ == its[0]@.subrange(i, its[0]@.len() - j)
        }),
{
    let views = its.map_values(|it: Iter<'a, T>| it@);
    assert forall|k: int| 0 <= k < moves.len() implies #[trigger] one_step(
        views[k],
        views[k + 1],
        moves[k],
    ) by {
        assert(its[k]@.len() > 0);
    }
    lemma_views_walk(views, moves);
}

/// After calls of `IterMut::next` that each gave an element, starting from
/// `its[0]`, what `into_slice` hands back is what was left at the start
/// without the elements given.
pub proof fn law_iter_mut_walk<'a, T>(its: Seq<IterMut<'a, T>>, rest: BiSliceMut<'a, T>)
    requires
        its.len() >= 1,
        forall|k: int|
            0 <= k < its.len() - 1 ==> {
                &&& (#[trigger] its[k])@.len() > 0
                &&& its[k + 1]@ == its[k]@.drop_first()
            },
        rest.front() == its.last().front(),
        rest.back() == its.last().back(),
    ensures
        its.len() - 1 <= its[0]@.len(),
        rest@ == its[0]@.skip(its.len() - 1),
{
    let views = its.map_values(|it: IterMut<'a, T>| it@);
    let moves = Seq::new((its.len() - 1) as nat, |k: int| true);
    assert forall|k: int| 0 <= k < moves.len() implies #[trigger] one_step(
        views[k],
        views[k + 1],
        moves[k],
    ) by {
        assert(its[k]@.len() > 0);
    }
    lemma_views_walk(views, moves);
    lemma_front_steps_all(moves);
    assert(views.last() == its.last()@);
}

proof fn lemma_front_steps_bound(moves: Seq<bool>)
    ensures
        front_steps(moves) <= moves.len(),
    decreases moves.len(),
{
    if moves.len() > 0 {
        lemma_front_steps_bound(moves.drop_last());
    }
}

proof fn lemma_front_steps_all(moves: Seq<bool>)
    requires
        forall|k: int| 0 <= k < moves.len() ==> moves[k],
    ensures
        front_steps(moves) == moves.len(),
    decreases moves.len(),
{
    if moves.len() > 0 {
        lemma_front_steps_all(moves.drop_last());
    }
}

/// The part that `s.slice((Included(a), Included(b)))` gives, for
/// `a <= b` inside `s`, holds the `b - a + 1` elements at `a` to `b`, both
/// included.
pub proof fn law_inclusive_range<'a, T>(s: BiSlice<'a, T>, a: usize, b: usize, t: BiSlice<'a, T>)
    requires
        a <= b < s@.len(),
        ({
            let (lo, hi) = range_indices((Bound::Included(a), Bound::Included(b)), s@.len() as int);
            t@ == s@.subrange(lo, hi)
        }),
    ensures
        t@.len() == b - a + 1,
        t@[0] == s@[a as int],
        t@.last() == s@[b as int],
        forall|k: int| 0 <= k <= b - a ==> #[trigger] t@[k] == s@[a + k],
{
}

/// The bytes that `read_vectored` puts into the buffers, taken buffer after
/// buffer, first buffer first.
pub open spec fn delivered(outs: Seq<Seq<u8>>, caps: Seq<int>, total: int, k: int) -> Seq<u8>
    decreases k,
{
    if k <= 0 {
        Seq::empty()
    } else {
        let lo = vstd::math::min(prefix_sum(caps, k - 1), total);
        let hi = vstd::math::min(prefix_sum(caps, k), total);
        delivered(outs, caps, total, k - 1) + outs[k - 1].take(hi - lo)
    }
}

/// What `read_vectored` leaves in the caller's buffers (`outs[i]` is what the
/// `i`-th buffer holds once its borrow ends, `caps[i]` its length), read
/// from the start of each buffer and buffer after buffer, is exactly the
/// `r` bytes that left the front of the two-slice, in their order.
pub proof fn law_read_vectored_delivers_in_order(
    whole: Seq<u8>,
    caps: Seq<int>,
    outs: Seq<Seq<u8>>,
    olds: Seq<Seq<u8>>,
    r: int,
)
    requires
        caps.len() == outs.len(),
        olds.len() == outs.len(),
        forall|i: int| 0 <= i < caps.len() ==> #[trigger] caps[i] == olds[i].len(),
        r == vstd::math::min(prefix_sum(caps, caps.len() as int), whole.len() as int),
        forall|i: int|
            0 <= i < outs.len() ==> {
                let lo = vstd::math::min(prefix_sum(caps, i), whole.len() as int);
                let hi = vstd::math::min(prefix_sum(caps, i + 1), whole.len() as int);
                #[trigger] outs[i] == whole.subrange(lo, hi) + olds[i].skip(hi - lo)
            },
    ensures
        delivered(outs, caps, whole.len() as int, caps.len() as int) == whole.take(r),
{
    lemma_delivered(whole, caps, outs, olds, caps.len() as int);
}

proof fn lemma_delivered(
    whole: Seq<u8>,
    caps: Seq<int>,
    outs: Seq<Seq<u8>>,
    olds: Seq<Seq<u8>>,
    k: int,
)
    requires
        0 <= k <= caps.len(),
        caps.len() == outs.len(),
        olds.len() == outs.len(),
        forall|i: int| 0 <= i < caps.len() ==> #[trigger] caps[i] == olds[i].len(),
        forall|i: int|
            0 <= i < outs.len() ==> {
                let lo = vstd::math::min(prefix_sum(caps, i), whole.len() as int);
                let hi = vstd::math::min(prefix_sum(caps, i + 1), whole.len() as int);
                #[trigger] outs[i] == whole.subrange(lo, hi) + olds[i].skip(hi - lo)
            },
    ensures
        delivered(outs, caps, whole.len() as int, k) == whole.take(
            vstd::math::min(prefix_sum(caps, k), whole.len() as int),
        ),
    decreases k,
{
    let total = whole.len() as int;
    if k == 0 {
        assert(whole.take(0) =~= Seq::<u8>::empty());
    } else {
        lemma_delivered(whole, caps, outs, olds, k - 1);
        let i = k - 1;
        lemma_prefix_sum_step(caps, i);
        assert forall|m: int| 0 <= m < caps.len() implies caps[m] >= 0 by {
            assert(caps[m] == olds[m].len());
        }
        lemma_prefix_sum_monotone(caps, 0, i);
        let lo = vstd::math::min(prefix_sum(caps, i), total);
        let hi = vstd::math::min(prefix_sum(caps, k), total);
        assert(outs[i] == whole.subrange(lo, hi) + olds[i].skip(hi - lo));
        assert(lo <= hi);
        assert(outs[i].take(hi - lo) =~= whole.subrange(lo, hi));
        assert(whole.take(lo) + whole.subrange(lo, hi) =~= whole.take(hi));
    }
}

} // verus!
