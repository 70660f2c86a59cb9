//! Two slices treated as one logically contiguous slice.
//!
//! A `BiSlice` (shared) or `BiSliceMut` (exclusive) holds a front slice and a
//! back slice; its view is their concatenation, and its methods behave on
//! that concatenation as the methods of the same name behave on one slice.
use vstd::prelude::*;

mod immutable;
pub mod laws;
mod mutable;
mod slices;

pub use immutable::{BiSlice, Iter, StreamError};
pub use mutable::{BiSliceMut, IterMut};

verus! {

/// One end of a range of indices, as written in a range expression.
#[derive(Clone, Copy, Debug, PartialEq, Eq, Hash)]
pub enum Bound {
    Included(usize),
    Excluded(usize),
    Unbounded,
}

impl Bound {
    /// The bound may serve as the start of a range: an excluded start
    /// one past `usize::MAX` does not exist.
    pub open spec fn valid_start(self) -> bool {
        !(self matches Bound::Excluded(n) && n == usize::MAX)
    }

    /// The bound may serve as the end of a range: an included end at
    /// `usize::MAX` has no exclusive counterpart.
    pub open spec fn valid_end(self) -> bool {
        !(self matches Bound::Included(n) && n == usize::MAX)
    }

    /// The first index that a range starting at this bound contains.
    pub open spec fn start_index(self) -> int {
        match self {
            Bound::Included(n) => n as int,
            Bound::Excluded(n) => n + 1,
            Bound::Unbounded => 0,
        }
    }

    /// The index one past the last one that a range ending at this bound
    /// contains, in a sequence of length `len`.
    pub open spec fn end_index(self, len: int) -> int {
        match self {
            Bound::Included(n) => n + 1,
            Bound::Excluded(n) => n as int,
            Bound::Unbounded => len,
        }
    }
}

/// Turns a pair of bounds into the half-open range `[start, end)` of indices
/// that they denote in a sequence of length `len`.
pub fn normalize_range(start: Bound, end: Bound, len: usize) -> (r: (usize, usize))
    requires
        start.valid_start(),
        end.valid_end(),
    ensures
        r.0 == start.start_index(),
        r.1 == end.end_index(len as int),
        start matches Bound::Included(n) ==> r.0 == n,
        start matches Bound::Excluded(n) ==> r.0 == n + 1,
        start is Unbounded ==> r.0 == 0,
        end matches Bound::Included(n) ==> r.1 == n + 1,
        end matches Bound::Excluded(n) ==> r.1 == n,
        end is Unbounded ==> r.1 == len,
{
    let start_idx = match start {
        Bound::Included(n) => n,
        Bound::Excluded(n) => n + 1,
        Bound::Unbounded => 0,
    };

    let end_idx = match end {
        Bound::Included(n) => n + 1,
        Bound::Excluded(n) => n,
        Bound::Unbounded => len,
    };

    (start_idx, end_idx)
}

/// A piece of an exclusive two-slice, beside the piece of a shared two-slice
/// that lines up with it.
type Portion<'a, 'b, T, U> = (&'a mut [T], &'b [U]);

/// Cuts the exclusive two-slice `a` and the shared two-slice `b`, which must
/// have one length, into three pairs of pieces of equal length, such that no
/// piece straddles the split of either: the pieces of `a` run over it in
/// order, and so do those of `b`. `None`, and `a` unchanged, when the
/// lengths differ.
fn aligned_portions<'a, 'b, T, U>(a: BiSliceMut<'a, T>, b: BiSlice<'b, U>) -> (r: Option<
    (Portion<'a, 'b, T, U>, Portion<'a, 'b, T, U>, Portion<'a, 'b, T, U>),
>)
    requires
        a.fits(),
        b.fits(),
    ensures
        r is Some <==> a@.len() == b@.len(),
        r is None ==> final(a.front_mut())@ == a.front() && final(a.back_mut())@ == a.back(),
        r matches Some(p) ==> {
            let (p0, p1, p2) = p;
            &&& p0.0@.len() == p0.1@.len()
            &&& p1.0@.len() == p1.1@.len()
            &&& p2.0@.len() == p2.1@.len()
            &&& p0.1@ + p1.1@ + p2.1@ == b@
            &&& if b.front().len() >= a.front().len() {
                &&& p0.0@ == a.front()
                &&& p1.0@ + p2.0@ == a.back()
                &&& p0.1@ + p1.1@ == b.front()
                &&& p2.1@ == b.back()
                &&& final(a.front_mut())@ == final(p0.0)@
                &&& final(a.back_mut())@ == final(p1.0)@ + final(p2.0)@
            } else {
                &&& p0.0@ + p1.0@ == a.front()
                &&& p2.0@ == a.back()
                &&& p0.1@ == b.front()
                &&& p1.1@ + p2.1@ == b.back()
                &&& final(a.front_mut())@ == final(p0.0)@ + final(p1.0)@
                &&& final(a.back_mut())@ == final(p2.0)@
            }
        },
{
    let same_len = a.reborrow().len() == b.len();
    let (dest_start, dest_end) = a.into_mut_slices();
    if !same_len {
        return None;
    }

    let (src_start, src_end) = b.into_slices();

    let src_split = src_start.len();
    let dest_split = dest_start.len();

    let mid_len = if dest_split >= src_split {
        dest_split - src_split
    } else {
        src_split - dest_split
    };

    Some(
        if src_split >= dest_split {
            let (src_start, src_mid) = src_start.split_at(dest_split);
            let (dest_mid, dest_end) = dest_end.split_at_mut(mid_len);
            ((dest_start, src_start), (dest_mid, src_mid), (dest_end, src_end))
        } else {
            let (src_mid, src_end) = src_end.split_at(mid_len);
            let (dest_start, dest_mid) = dest_start.split_at_mut(src_split);
            ((dest_start, src_start), (dest_mid, src_mid), (dest_end, src_end))
        },
    )
}

/// Cuts the exclusive two-slices `a` and `b`, which must have one length,
/// into three pairs of pieces of equal length, as `aligned_portions` does;
/// `None`, and both unchanged, when the lengths differ.
#[allow(dead_code)]
fn aligned_portions_mut<'a, 'b, T, U>(a: BiSliceMut<'a, T>, b: BiSliceMut<'b, U>) -> (r: Option<
    ((&'a mut [T], &'b mut [U]), (&'a mut [T], &'b mut [U]), (&'a mut [T], &'b mut [U])),
>)
    requires
        a.fits(),
        b.fits(),
    ensures
        r is Some <==> a@.len() == b@.len(),
        r is None ==> {
            &&& final(a.front_mut())@ == a.front()
            &&& final(a.back_mut())@ == a.back()
            &&& final(b.front_mut())@ == b.front()
            &&& final(b.back_mut())@ == b.back()
        },
        r matches Some(p) ==> {
            let (p0, p1, p2) = p;
            &&& p0.0@.len() == p0.1@.len()
            &&& p1.0@.len() == p1.1@.len()
            &&& p2.0@.len() == p2.1@.len()
            &&& if b.front().len() >= a.front().len() {
                &&& p0.0@ == a.front()
                &&& p1.0@ + p2.0@ == a.back()
                &&& p0.1@ + p1.1@ == b.front()
                &&& p2.1@ == b.back()
                &&& final(a.front_mut())@ == final(p0.0)@
                &&& final(a.back_mut())@ == final(p1.0)@ + final(p2.0)@
                &&& final(b.front_mut())@ == final(p0.1)@ + final(p1.1)@
                &&& final(b.back_mut())@ == final(p2.1)@
            } else {
                &&& p0.0@ + p1.0@ == a.front()
                &&& p2.0@ == a.back()
                &&& p0.1@ == b.front()
                &&& p1.1@ + p2.1@ == b.back()
                &&& final(a.front_mut())@ == final(p0.0)@ + final(p1.0)@
                &&& final(a.back_mut())@ == final(p2.0)@
                &&& final(b.front_mut())@ == final(p0.1)@
                &&& final(b.back_mut())@ == final(p1.1)@ + final(p2.1)@
            }
        },
{
    let same_len = a.reborrow().len() == b.reborrow().len();
    let (dest_start, dest_end) = a.into_mut_slices();
    let (src_start, src_end) = b.into_mut_slices();
    if !same_len {
        return None;
    }

    let src_split = src_start.len();
    let dest_split = dest_start.len();

    let mid_len = if dest_split >= src_split {
        dest_split - src_split
    } else {
        src_split - dest_split
    };

    Some(
        if src_split >= dest_split {
            let (src_start, src_mid) = src_start.split_at_mut(dest_split);
            let (dest_mid, dest_end) = dest_end.split_at_mut(mid_len);
            ((dest_start, src_start), (dest_mid, src_mid), (dest_end, src_end))
        } else {
            let (src_mid, src_end) = src_end.split_at_mut(mid_len);
            let (dest_start, dest_mid) = dest_start.split_at_mut(src_split);
            ((dest_start, src_start), (dest_mid, src_mid), (dest_end, src_end))
        },
    )
}

/// Cuts the shared two-slices `a` and `b`, which must have one length, into
/// three pairs of pieces of equal length, as `aligned_portions` does; `None`
/// when the lengths differ.
#[allow(dead_code)]
fn aligned_portions_ref<'a, 'b, T, U>(a: BiSlice<'a, T>, b: BiSlice<'b, U>) -> (r: Option<
    ((&'a [T], &'b [U]), (&'a [T], &'b [U]), (&'a [T], &'b [U])),
>)
    requires
        a.fits(),
        b.fits(),
    ensures
        r is Some <==> a@.len() == b@.len(),
        r matches Some(p) ==> {
            let (p0, p1, p2) = p;
            &&& p0.0@.len() == p0.1@.len()
            &&& p1.0@.len() == p1.1@.len()
            &&& p2.0@.len() == p2.1@.len()
            &&& if b.front().len() >= a.front().len() {
                &&& p0.0@ == a.front()
                &&& p1.0@ + p2.0@ == a.back()
                &&& p0.1@ + p1.1@ == b.front()
                &&& p2.1@ == b.back()
            } else {
                &&& p0.0@ + p1.0@ == a.front()
                &&& p2.0@ == a.back()
                &&& p0.1@ == b.front()
                &&& p1.1@ + p2.1@ == b.back()
            }
        },
{
    if a.len() != b.len() {
        return None;
    }

    let (dest_start, dest_end) = a.into_slices();
    let (src_start, src_end) = b.into_slices();

    let src_split = src_start.len();
    let dest_split = dest_start.len();

    let mid_len = if dest_split >= src_split {
        dest_split - src_split
    } else {
        src_split - dest_split
    };

    Some(
        if src_split >= dest_split {
            let (src_start, src_mid) = src_start.split_at(dest_split);
            let (dest_mid, dest_end) = dest_end.split_at(mid_len);
            ((dest_start, src_start), (dest_mid, src_mid), (dest_end, src_end))
        } else {
            let (src_mid, src_end) = src_end.split_at(mid_len);
            let (dest_start, dest_mid) = dest_start.split_at(src_split);
            ((dest_start, src_start), (dest_mid, src_mid), (dest_end, src_end))
        },
    )
}

} // verus!
