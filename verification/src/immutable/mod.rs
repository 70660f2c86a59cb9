//! The shared two-slice type.
use vstd::prelude::*;

use std::collections::TryReserveError;
use vstd::std_specs::convert::{FromSpec, FromSpecImpl};

use crate::mutable::BiSliceMut;
use crate::slices;
use crate::{normalize_range, Bound};

mod iterator;

pub use iterator::Iter;

verus! {

/// A front slice and a back slice, read as one slice: the elements of the
/// front come first, then those of the back.
#[derive(PartialEq, Eq, PartialOrd, Ord, Hash)]
pub struct BiSlice<'a, T> {
    start: &'a [T],
    end: &'a [T],
}

/// Why a read or a write on a two-slice buffer stopped short.
#[derive(Clone, Copy, Debug, PartialEq, Eq, Hash)]
pub enum StreamError {
    /// `read_exact` found fewer bytes than it was asked for.
    UnexpectedEof,
    /// `write_all` found less room than it was given bytes.
    WriteZero,
}

impl<'a, T> BiSlice<'a, T> {
    /// The elements of the front slice.
    pub closed spec fn front(self) -> Seq<T> {
        self.start@
    }

    /// The elements of the back slice.
    pub closed spec fn back(self) -> Seq<T> {
        self.end@
    }

    /// The length of the whole fits in a `usize` (it always does unless the
    /// elements take no space).
    pub open spec fn fits(self) -> bool {
        self.front().len() + self.back().len() <= usize::MAX
    }
}

impl<'a, T> View for BiSlice<'a, T> {
    type V = Seq<T>;

    /// The front followed by the back.
    open spec fn view(&self) -> Seq<T> {
        self.front() + self.back()
    }
}

impl<T> Default for BiSlice<'_, T> {
    fn default() -> (r: Self)
        ensures
            r.front() == Seq::<T>::empty(),
            r.back() == Seq::<T>::empty(),
    {
        BiSlice { start: &[], end: &[] }
    }
}

impl<T> Clone for BiSlice<'_, T> {
    fn clone(&self) -> (r: Self)
        ensures
            r == *self,
    {
        *self
    }
}

impl<T> Copy for BiSlice<'_, T> {

}

impl<'a, T> BiSlice<'a, T> {
    /// The two-slice whose front is `start` and whose back is `end`.
    pub fn new(start: &'a [T], end: &'a [T]) -> (r: Self)
        ensures
            r.front() == start@,
            r.back() == end@,
    {
        BiSlice { start, end }
    }

    /// The two-slice whose front is `slice` and whose back is empty.
    pub fn from_single(slice: &'a [T]) -> (r: Self)
        ensures
            r.front() == slice@,
            r.back() == Seq::<T>::empty(),
    {
        Self::new(slice, &[])
    }

    /// The front and the back slice.
    pub fn into_slices(self) -> (r: (&'a [T], &'a [T]))
        ensures
            r.0@ == self.front(),
            r.1@ == self.back(),
    {
        (self.start, self.end)
    }

    /// The number of elements of the whole.
    pub fn len(self) -> (r: usize)
        requires
            self.fits(),
        ensures
            r == self@.len(),
    {
        let (start, end) = self.into_slices();
        start.len() + end.len()
    }

    /// Whether the whole has no element.
    pub fn is_empty(self) -> (r: bool)
        requires
            self.fits(),
        ensures
            r <==> self@.len() == 0,
    {
        self.len() == 0
    }

    /// The element at `index` of the whole, or `None` when `index` is out of
    /// bounds.
    pub fn get(self, index: usize) -> (r: Option<&'a T>)
        ensures
            r is Some <==> index < self@.len(),
            r matches Some(x) ==> *x == self@[index as int],
    {
        let (start, end) = self.into_slices();
        if let Some(i) = index.checked_sub(start.len()) {
            slices::get(end, i)
        } else {
            slices::get(start, index)
        }
    }

    /// The part of the whole that `range` selects, or `None` when the range
    /// runs backwards or past the end. The part keeps the split: its front
    /// comes from the front, its back from the back.
    pub fn slice(self, range: (Bound, Bound)) -> (r: Option<Self>)
        requires
            self.fits(),
            range.0.valid_start(),
            range.1.valid_end(),
        ensures
            ({
                let lo = range.0.start_index();
                let hi = range.1.end_index(self@.len() as int);
                let f = self.front().len() as int;
                &&& r is Some <==> 0 <= lo <= hi <= self@.len()
                &&& r matches Some(s) ==> {
                    &&& s@ == self@.subrange(lo, hi)
                    &&& s.front() == self.front().subrange(vstd::math::min(lo, f), vstd::math::min(hi, f))
                    &&& s.back() == self.back().subrange(vstd::math::max(lo, f) - f, vstd::math::max(hi, f) - f)
                }
            }),
    {
        let this_len = self.len();
        let (mut start, mut end) = self.into_slices();

        let (start_idx, end_idx) = normalize_range(range.0, range.1, this_len);

        let range_len = match end_idx.checked_sub(start_idx) {
            Some(n) => n,
            None => return None,
        };

        if let Some(k) = start_idx.checked_sub(start.len()) {
            start = &[];
            end = match slices::split_at_checked(end, k) {
                Some((_, rest)) => rest,
                None => return None,
            };
        } else {
            start = start.split_at(start_idx).1;
        }

        if let Some(k) = range_len.checked_sub(start.len()) {
            end = match slices::split_at_checked(end, k) {
                Some((part, _)) => part,
                None => return None,
            };
        } else {
            end = &[];
            start = start.split_at(range_len).0;
        }

        let r = Self::new(start, end);
        assert(r@ =~= self@.subrange(start_idx as int, end_idx as int));
        Some(r)
    }

    /// The whole split at `mid` into the part before it and the part from it
    /// on, or `None` when `mid` is past the end.
    pub fn split_at(self, mid: usize) -> (r: Option<(Self, Self)>)
        ensures
            r is Some <==> mid <= self@.len(),
            r matches Some(p) ==> {
                &&& p.0@ == self@.take(mid as int)
                &&& p.1@ == self@.skip(mid as int)
                &&& p.0@ + p.1@ == self@
                &&& if mid <= self.front().len() {
                    &&& p.0.front() == self.front().take(mid as int)
                    &&& p.0.back() == Seq::<T>::empty()
                    &&& p.1.front() == self.front().skip(mid as int)
                    &&& p.1.back() == self.back()
                } else {
                    &&& p.0.front() == self.front()
                    &&& p.0.back() == self.back().take(mid - self.front().len())
                    &&& p.1.front() == self.back().skip(mid - self.front().len())
                    &&& p.1.back() == Seq::<T>::empty()
                }
            },
    {
        let split = self.start.len();

        let r = match slices::split_at_checked(self.start, mid) {
            Some((start, end)) => Some((Self::from_single(start), Self::new(end, self.end))),
            None => match slices::split_at_checked(self.end, mid - split) {
                Some((start, end)) => Some((Self::new(self.start, start), Self::from_single(end))),
                None => None,
            },
        };
        proof {
            if let Some(p) = r {
                assert(p.0@ =~= self@.take(mid as int));
                assert(p.1@ =~= self@.skip(mid as int));
            }
        }
        r
    }

    /// The first element of the whole and the rest, or `None` when the whole
    /// is empty.
    pub fn split_first(self) -> (r: Option<(&'a T, Self)>)
        ensures
            r is Some <==> self@.len() > 0,
            r matches Some(p) ==> {
                &&& *p.0 == self@[0]
                &&& p.1@ == self@.drop_first()
                &&& seq![*p.0] + p.1@ == self@
                &&& if self.front().len() > 0 {
                    p.1.front() == self.front().drop_first() && p.1.back() == self.back()
                } else {
                    p.1.front() == self.back().drop_first() && p.1.back() == Seq::<T>::empty()
                }
            },
    {
        let r = match slices::split_first(self.start) {
            Some((first, rem)) => Some((first, Self::new(rem, self.end))),
            None => match slices::split_first(self.end) {
                Some((first, rem)) => Some((first, Self::from_single(rem))),
                None => None,
            },
        };
        proof {
            if let Some(p) = r {
                assert(p.1@ =~= self@.drop_first());
            }
        }
        r
    }

    /// The last element of the whole and the rest, or `None` when the whole
    /// is empty.
    pub fn split_last(self) -> (r: Option<(&'a T, Self)>)
        ensures
            r is Some <==> self@.len() > 0,
            r matches Some(p) ==> {
                &&& *p.0 == self@.last()
                &&& p.1@ == self@.drop_last()
                &&& p.1@.push(*p.0) == self@
                &&& if self.back().len() > 0 {
                    p.1.front() == self.front() && p.1.back() == self.back().drop_last()
                } else {
                    p.1.front() == self.front().drop_last() && p.1.back() == Seq::<T>::empty()
                }
            },
    {
        let r = match slices::split_last(self.end) {
            Some((last, rem)) => Some((last, Self::new(self.start, rem))),
            None => match slices::split_last(self.start) {
                Some((last, rem)) => Some((last, Self::from_single(rem))),
                None => None,
            },
        };
        proof {
            if let Some(p) = r {
                assert(p.1@ =~= self@.drop_last());
            }
        }
        r
    }

    /// An iterator over the elements of the whole, front first.
    pub fn iter(self) -> (r: Iter<'a, T>)
        ensures
            r.front() == self.front(),
            r.back() == self.back(),
    {
        Iter::from_slice(self)
    }
}

impl<T> core::ops::Index<usize> for BiSlice<'_, T> {
    type Output = T;

    fn index(&self, index: usize) -> (r: &T)
        ensures
            *r == self@[index as int],
    {
        self.get(index).expect("index out of bounds")
    }
}

impl<T> vstd::std_specs::core::IndexSpecImpl<usize> for BiSlice<'_, T> {
    /// Indexing asks for an index inside the whole.
    open spec fn index_req(&self, index: &usize) -> bool {
        *index < self@.len()
    }
}

impl<'a> BiSlice<'a, u8> {
    /// Reads as many bytes as fit into `buf` from the front of the whole,
    /// copies them to the start of `buf`, and drops them from the whole;
    /// gives their number.
    pub fn read(&mut self, buf: &mut [u8]) -> (r: usize)
        requires
            old(self).fits(),
        ensures
            r == vstd::math::min(old(buf)@.len() as int, old(self)@.len() as int),
            final(buf)@ == old(self)@.take(r as int) + old(buf)@.skip(r as int),
            final(self)@ == old(self)@.skip(r as int),
            final(buf)@.take(r as int) + final(self)@ == old(self)@,
            r <= old(self).front().len() ==> final(self).front() == old(self).front().skip(
                r as int,
            ) && final(self).back() == old(self).back(),
            r > old(self).front().len() ==> final(self).front() == old(self).back().skip(
                r - old(self).front().len(),
            ) && final(self).back() == Seq::<u8>::empty(),
    {
        let amt = buf.len().min(self.len());
        let (a, b) = self.split_at(amt).unwrap();
        let (dest, _rest) = buf.split_at_mut(amt);

        BiSliceMut::from_single(dest).copy_from_slice(a).unwrap();

        *self = b;
        assert(final(buf)@ =~= old(self)@.take(amt as int) + old(buf)@.skip(amt as int));
        amt
    }

    /// Reads the bytes of the whole into the buffers of `bufs` in turn, as
    /// `read` does, until the whole is empty or the buffers are full; gives
    /// their number.
    pub fn read_vectored(&mut self, bufs: &mut [&mut [u8]]) -> (r: usize)
        requires
            old(self).fits(),
        ensures
            ({
                let caps = capacities(old(bufs)@);
                let total = old(self)@.len() as int;
                &&& r == vstd::math::min(prefix_sum(caps, caps.len() as int), total)
                &&& final(self)@ == old(self)@.skip(r as int)
                &&& r <= old(self).front().len() ==> final(self).front() == old(self).front().skip(
                    r as int,
                ) && final(self).back() == old(self).back()
                &&& r > old(self).front().len() ==> final(self).front() == old(self).back().skip(
                    r - old(self).front().len(),
                ) && final(self).back() == Seq::<u8>::empty()
                &&& final(bufs)@.len() == old(bufs)@.len()
                &&& forall|i: int|
                    0 <= i < old(bufs)@.len() ==> {
                        let lo = vstd::math::min(prefix_sum(caps, i), total);
                        let hi = vstd::math::min(prefix_sum(caps, i + 1), total);
                        #[trigger] final(bufs)@[i]@ == old(self)@.subrange(lo, hi) + old(
                            bufs,
                        )@[i]@.skip(hi - lo)
                    }
                &&& forall|i: int|
                    0 <= i < old(bufs)@.len() ==> final(#[trigger] final(bufs)@[i])@
                        == final(old(bufs)@[i])@
            }),
    {
        let ghost caps = capacities(bufs@);
        let ghost total = self@.len() as int;
        let ghost whole = self@;
        let mut nread: usize = 0;
        let mut i: usize = 0;
        while i < bufs.len()
            invariant
                self.fits(),
                bufs@.len() == old(bufs)@.len(),
                caps == capacities(old(bufs)@),
                total == old(self)@.len(),
                total <= usize::MAX,
                whole == old(self)@,
                i <= bufs@.len(),
                nread == vstd::math::min(prefix_sum(caps, i as int), total),
                self@ == whole.skip(nread as int),
                nread <= old(self).front().len() ==> self.front() == old(self).front().skip(
                    nread as int,
                ) && self.back() == old(self).back(),
                nread > old(self).front().len() ==> self.front() == old(self).back().skip(
                    nread - old(self).front().len(),
                ) && self.back() == Seq::<u8>::empty(),
                forall|k: int| 0 <= k < caps.len() ==> caps[k] >= 0,
                caps.len() == bufs@.len(),
                forall|k: int| 0 <= k < caps.len() ==> #[trigger] caps[k] == old(bufs)@[k]@.len(),
                forall|j: int|
                    0 <= j < i ==> {
                        let lo = vstd::math::min(prefix_sum(caps, j), total);
                        let hi = vstd::math::min(prefix_sum(caps, j + 1), total);
                        #[trigger] bufs@[j]@ == whole.subrange(lo, hi) + old(bufs)@[j]@.skip(hi - lo)
                    },
                forall|j: int| i <= j < bufs@.len() ==> #[trigger] bufs@[j] == old(bufs)@[j],
                forall|j: int| 0 <= j < bufs@.len() ==> final(#[trigger] bufs@[j])@ == final(old(bufs)@[j])@,
            ensures
                i == bufs@.len() || self@.len() == 0,
            decreases bufs@.len() - i,
        {
            proof {
                lemma_prefix_sum_step(caps, i as int);
                assert(caps[i as int] == old(bufs)@[i as int]@.len());
                assert(bufs@[i as int] == old(bufs)@[i as int]);
            }
            let n = self.read(&mut *bufs[i]);
            nread = nread + n;
            i = i + 1;
            if self.is_empty() {
                break;
            }
        }
        proof {
            assert forall|j: int| i <= j <= caps.len() implies vstd::math::min(prefix_sum(caps, j), total) == nread by {
                lemma_prefix_sum_monotone(caps, i as int, j);
            }
        }
        nread
    }

    /// Appends all the bytes of the whole to `buf` and empties the whole;
    /// gives their number. Fails, and changes nothing, when `buf` cannot
    /// make room for them; whether it can is up to the allocator
    /// (`Vec::try_reserve`), so the contract says what holds either way.
    pub fn read_to_end(&mut self, buf: &mut Vec<u8>) -> (r: Result<usize, TryReserveError>)
        requires
            old(self).fits(),
        ensures
            r matches Ok(n) ==> {
                &&& n == old(self)@.len()
                &&& final(buf)@ == old(buf)@ + old(self)@
                &&& final(self)@ == Seq::<u8>::empty()
            },
            r is Err ==> final(buf)@ == old(buf)@ && *final(self) == *old(self),
    {
        let len = self.len();
        if let Err(e) = buf.try_reserve(len) {
            return Err(e);
        }
        let (start, end) = self.into_slices();
        buf.extend_from_slice(start);
        buf.extend_from_slice(end);
        *self = self.slice((Bound::Included(len), Bound::Unbounded)).unwrap();
        assert(buf@ =~= old(buf)@ + old(self)@);
        Ok(len)
    }

    /// Fills `buf` from the front of the whole, as `read` does; fails with
    /// `UnexpectedEof` when the whole holds fewer bytes than `buf` has room
    /// for, and then it has read all the bytes there were.
    pub fn read_exact(&mut self, buf: &mut [u8]) -> (r: Result<(), StreamError>)
        requires
            old(self).fits(),
        ensures
            ({
                let n = vstd::math::min(old(buf)@.len() as int, old(self)@.len() as int);
                &&& final(buf)@ == old(self)@.take(n) + old(buf)@.skip(n)
                &&& final(self)@ == old(self)@.skip(n)
                &&& n <= old(self).front().len() ==> final(self).front() == old(self).front().skip(n)
                    && final(self).back() == old(self).back()
                &&& n > old(self).front().len() ==> final(self).front() == old(self).back().skip(
                    n - old(self).front().len(),
                ) && final(self).back() == Seq::<u8>::empty()
                &&& r is Ok <==> old(buf)@.len() <= old(self)@.len()
                &&& r matches Err(e) ==> e == StreamError::UnexpectedEof
            }),
    {
        let n = self.read(buf);
        if n >= buf.len() {
            Ok(())
        } else {
            Err(StreamError::UnexpectedEof)
        }
    }
}

/// The lengths of the buffers of `bufs`.
pub open spec fn capacities(bufs: Seq<&mut [u8]>) -> Seq<int> {
    bufs.map_values(|b: &mut [u8]| b@.len() as int)
}

/// The sum of the first `i` numbers of `s`.
pub open spec fn prefix_sum(s: Seq<int>, i: int) -> int
    decreases i,
{
    if i <= 0 {
        0
    } else {
        prefix_sum(s, i - 1) + s[i - 1]
    }
}

pub(crate) proof fn lemma_prefix_sum_monotone(s: Seq<int>, i: int, j: int)
    requires
        0 <= i <= j <= s.len(),
        forall|k: int| 0 <= k < s.len() ==> s[k] >= 0,
    ensures
        prefix_sum(s, i) <= prefix_sum(s, j),
    decreases j - i,
{
    if i < j {
        lemma_prefix_sum_monotone(s, i, j - 1);
    }
}

pub(crate) proof fn lemma_prefix_sum_step(s: Seq<int>, i: int)
    requires
        0 <= i,
    ensures
        prefix_sum(s, i + 1) == prefix_sum(s, i) + s[i],
{
}

impl<'a, T> From<&'a [T]> for BiSlice<'a, T> {
    fn from(value: &'a [T]) -> (r: Self)
        ensures
            r.front() == value@,
            r.back() == Seq::<T>::empty(),
    {
        BiSlice { start: value, end: &[] }
    }
}

impl<'a, T> FromSpecImpl<&'a [T]> for BiSlice<'a, T> {
    open spec fn obeys_from_spec() -> bool {
        true
    }

    /// The slice as the front, with an empty back.
    closed spec fn from_spec(v: &'a [T]) -> Self {
        BiSlice { start: v, end: &[] }
    }
}

impl<'a, T> From<(&'a [T],)> for BiSlice<'a, T> {
    fn from(value: (&'a [T],)) -> (r: Self)
        ensures
            r.front() == value.0@,
            r.back() == Seq::<T>::empty(),
    {
        BiSlice { start: value.0, end: &[] }
    }
}

impl<'a, T> FromSpecImpl<(&'a [T],)> for BiSlice<'a, T> {
    open spec fn obeys_from_spec() -> bool {
        true
    }

    /// The slice as the front, with an empty back.
    closed spec fn from_spec(v: (&'a [T],)) -> Self {
        BiSlice { start: v.0, end: &[] }
    }
}

impl<'a, T> From<[&'a [T]; 1]> for BiSlice<'a, T> {
    fn from(value: [&'a [T]; 1]) -> (r: Self)
        ensures
            r.front() == value[0]@,
            r.back() == Seq::<T>::empty(),
    {
        BiSlice { start: value[0], end: &[] }
    }
}

impl<'a, T> FromSpecImpl<[&'a [T]; 1]> for BiSlice<'a, T> {
    open spec fn obeys_from_spec() -> bool {
        true
    }

    /// The slice as the front, with an empty back.
    closed spec fn from_spec(v: [&'a [T]; 1]) -> Self {
        BiSlice { start: v[0], end: &[] }
    }
}

impl<'a, T> From<(&'a [T], &'a [T])> for BiSlice<'a, T> {
    fn from(value: (&'a [T], &'a [T])) -> (r: Self)
        ensures
            r.front() == value.0@,
            r.back() == value.1@,
    {
        BiSlice { start: value.0, end: value.1 }
    }
}

impl<'a, T> FromSpecImpl<(&'a [T], &'a [T])> for BiSlice<'a, T> {
    open spec fn obeys_from_spec() -> bool {
        true
    }

    /// The first slice as the front, the second as the back.
    closed spec fn from_spec(v: (&'a [T], &'a [T])) -> Self {
        BiSlice { start: v.0, end: v.1 }
    }
}

impl<'a, T> From<[&'a [T]; 2]> for BiSlice<'a, T> {
    fn from(value: [&'a [T]; 2]) -> (r: Self)
        ensures
            r.front() == value[0]@,
            r.back() == value[1]@,
    {
        BiSlice { start: value[0], end: value[1] }
    }
}

impl<'a, T> FromSpecImpl<[&'a [T]; 2]> for BiSlice<'a, T> {
    open spec fn obeys_from_spec() -> bool {
        true
    }

    /// The first slice as the front, the second as the back.
    closed spec fn from_spec(v: [&'a [T]; 2]) -> Self {
        BiSlice { start: v[0], end: v[1] }
    }
}

impl<'a, T> From<BiSlice<'a, T>> for (&'a [T], &'a [T]) {
    fn from(value: BiSlice<'a, T>) -> (r: Self)
        ensures
            r.0@ == value.front(),
            r.1@ == value.back(),
    {
        (value.start, value.end)
    }
}

impl<'a, T> FromSpecImpl<BiSlice<'a, T>> for (&'a [T], &'a [T]) {
    open spec fn obeys_from_spec() -> bool {
        true
    }

    /// The front and the back.
    closed spec fn from_spec(v: BiSlice<'a, T>) -> Self {
        (v.start, v.end)
    }
}

impl<'a, T> From<BiSlice<'a, T>> for [&'a [T]; 2] {
    fn from(value: BiSlice<'a, T>) -> (r: Self)
        ensures
            r[0]@ == value.front(),
            r[1]@ == value.back(),
    {
        [value.start, value.end]
    }
}

impl<'a, T> FromSpecImpl<BiSlice<'a, T>> for [&'a [T]; 2] {
    open spec fn obeys_from_spec() -> bool {
        true
    }

    /// The front and the back.
    closed spec fn from_spec(v: BiSlice<'a, T>) -> Self {
        [v.start, v.end]
    }
}

impl<'a, T> From<&'a mut [T]> for BiSlice<'a, T> {
    /// The slice as the front, with an empty back; it keeps what it holds.
    fn from(value: &'a mut [T]) -> (r: Self)
        ensures
            r.front() == old(value)@,
            r.back() == Seq::<T>::empty(),
            final(value)@ == old(value)@,
    {
        BiSlice { start: value, end: &[] }
    }
}

impl<'a, T> FromSpecImpl<&'a mut [T]> for BiSlice<'a, T> {
    open spec fn obeys_from_spec() -> bool {
        true
    }

    closed spec fn from_spec(v: &'a mut [T]) -> Self {
        BiSlice { start: v, end: &[] }
    }
}

impl<'a, T> From<BiSliceMut<'a, T>> for BiSlice<'a, T> {
    /// The same two slices, shared from now on: they keep what they hold.
    fn from(value: BiSliceMut<'a, T>) -> (r: Self)
        ensures
            r.front() == value.front(),
            r.back() == value.back(),
            final(value.front_mut())@ == value.front(),
            final(value.back_mut())@ == value.back(),
    {
        let (start, end) = value.into_mut_slices();
        let r = BiSlice { start, end };
        proof {
            broadcast use vstd::slice::group_slice_axioms;

            let s: BiSlice<'a, T> = BiSlice { start: value.front_mut(), end: value.back_mut() };
            assert(r.start =~= s.start);
            assert(r.end =~= s.end);
        }
        r
    }
}

impl<'a, T> FromSpecImpl<BiSliceMut<'a, T>> for BiSlice<'a, T> {
    open spec fn obeys_from_spec() -> bool {
        true
    }

    /// The front and the back as they are when the conversion happens.
    closed spec fn from_spec(v: BiSliceMut<'a, T>) -> Self {
        BiSlice { start: v.front_mut(), end: v.back_mut() }
    }
}

impl<'a, T> From<(&'a mut [T],)> for BiSlice<'a, T> {
    fn from(value: (&'a mut [T],)) -> (r: Self)
        ensures
            r.front() == old(value.0)@,
            r.back() == Seq::<T>::empty(),
            final(value.0)@ == old(value.0)@,
    {
        BiSlice { start: value.0, end: &[] }
    }
}

impl<'a, T> FromSpecImpl<(&'a mut [T],)> for BiSlice<'a, T> {
    open spec fn obeys_from_spec() -> bool {
        true
    }

    /// The front and the back, as they are when the conversion happens.
    closed spec fn from_spec(v: (&'a mut [T],)) -> Self {
        BiSlice { start: v.0, end: &[] }
    }
}

impl<'a, T> From<(&'a mut [T], &'a [T])> for BiSlice<'a, T> {
    fn from(value: (&'a mut [T], &'a [T])) -> (r: Self)
        ensures
            r.front() == old(value.0)@,
            r.back() == value.1@,
            final(value.0)@ == old(value.0)@,
    {
        BiSlice { start: value.0, end: value.1 }
    }
}

impl<'a, T> FromSpecImpl<(&'a mut [T], &'a [T])> for BiSlice<'a, T> {
    open spec fn obeys_from_spec() -> bool {
        true
    }

    /// The front and the back, as they are when the conversion happens.
    closed spec fn from_spec(v: (&'a mut [T], &'a [T])) -> Self {
        BiSlice { start: v.0, end: v.1 }
    }
}

impl<'a, T> From<(&'a [T], &'a mut [T])> for BiSlice<'a, T> {
    fn from(value: (&'a [T], &'a mut [T])) -> (r: Self)
        ensures
            r.front() == value.0@,
            r.back() == old(value.1)@,
            final(value.1)@ == old(value.1)@,
    {
        BiSlice { start: value.0, end: value.1 }
    }
}

impl<'a, T> FromSpecImpl<(&'a [T], &'a mut [T])> for BiSlice<'a, T> {
    open spec fn obeys_from_spec() -> bool {
        true
    }

    /// The front and the back, as they are when the conversion happens.
    closed spec fn from_spec(v: (&'a [T], &'a mut [T])) -> Self {
        BiSlice { start: v.0, end: v.1 }
    }
}

impl<'a, T> From<(&'a mut [T], &'a mut [T])> for BiSlice<'a, T> {
    fn from(value: (&'a mut [T], &'a mut [T])) -> (r: Self)
        ensures
            r.front() == old(value.0)@,
            r.back() == old(value.1)@,
            final(value.0)@ == old(value.0)@,
            final(value.1)@ == old(value.1)@,
    {
        BiSlice { start: value.0, end: value.1 }
    }
}

impl<'a, T> FromSpecImpl<(&'a mut [T], &'a mut [T])> for BiSlice<'a, T> {
    open spec fn obeys_from_spec() -> bool {
        true
    }

    /// The front and the back, as they are when the conversion happens.
    closed spec fn from_spec(v: (&'a mut [T], &'a mut [T])) -> Self {
        BiSlice { start: v.0, end: v.1 }
    }
}

/// The conversions between a pair of slices and a two-slice undo each other.
pub(crate) proof fn lemma_pair_round_trip<'a, T>(a: &'a [T], b: &'a [T], s: BiSlice<'a, T>)
    ensures
        <(&'a [T], &'a [T]) as FromSpec<BiSlice<'a, T>>>::from_spec(
            <BiSlice<'a, T> as FromSpec<(&'a [T], &'a [T])>>::from_spec((a, b)),
        ) == (a, b),
        <BiSlice<'a, T> as FromSpec<(&'a [T], &'a [T])>>::from_spec(
            <(&'a [T], &'a [T]) as FromSpec<BiSlice<'a, T>>>::from_spec(s),
        ) == s,
{
}

impl<'a, T> From<[&'a mut [T]; 1]> for BiSlice<'a, T> {
    /// The slice as the front, with an empty back; it keeps what it holds.
    fn from(value: [&'a mut [T]; 1]) -> (r: Self)
        ensures
            r.front() == value[0]@,
            r.back() == Seq::<T>::empty(),
            final(value[0])@ == value[0]@,
    {
        let ghost orig = value;
        let mut value = value;
        let mut start = slices::empty_mut();
        core::mem::swap(&mut start, &mut value[0]);
        let r = BiSlice { start, end: &[] };
        proof {
            broadcast use vstd::slice::group_slice_axioms;

            let s: BiSlice<'a, T> = BiSlice { start: orig[0], end: &[] };
            assert(r.start =~= s.start);
        }
        r
    }
}

impl<'a, T> FromSpecImpl<[&'a mut [T]; 1]> for BiSlice<'a, T> {
    open spec fn obeys_from_spec() -> bool {
        true
    }

    /// The slice, as it is when the conversion happens, as the front, with
    /// an empty back.
    closed spec fn from_spec(v: [&'a mut [T]; 1]) -> Self {
        BiSlice { start: v[0], end: &[] }
    }
}

impl<'a, T> From<[&'a mut [T]; 2]> for BiSlice<'a, T> {
    /// The first slice as the front, the second as the back; they keep what
    /// they hold.
    fn from(value: [&'a mut [T]; 2]) -> (r: Self)
        ensures
            r.front() == value[0]@,
            r.back() == value[1]@,
            final(value[0])@ == value[0]@,
            final(value[1])@ == value[1]@,
    {
        let ghost orig = value;
        let mut value = value;
        let mut start = slices::empty_mut();
        let mut end = slices::empty_mut();
        core::mem::swap(&mut start, &mut value[0]);
        core::mem::swap(&mut end, &mut value[1]);
        let r = BiSlice { start, end };
        proof {
            broadcast use vstd::slice::group_slice_axioms;

            let s: BiSlice<'a, T> = BiSlice { start: orig[0], end: orig[1] };
            assert(r.start =~= s.start);
            assert(r.end =~= s.end);
        }
        r
    }
}

impl<'a, T> FromSpecImpl<[&'a mut [T]; 2]> for BiSlice<'a, T> {
    open spec fn obeys_from_spec() -> bool {
        true
    }

    /// The two slices, as they are when the conversion happens, as the front
    /// and the back.
    closed spec fn from_spec(v: [&'a mut [T]; 2]) -> Self {
        BiSlice { start: v[0], end: v[1] }
    }
}

} // verus!
