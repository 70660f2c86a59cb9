//! Iteration over the elements of an exclusive two-slice.
use vstd::prelude::*;

use super::BiSliceMut;
use crate::immutable::BiSlice;
use crate::slices;

verus! {

/// An iterator over exclusive borrows of the elements of a two-slice: what
/// is left of the front, then what is left of the back.
///
/// Its contracts speak of the two slices still to come through `front_mut`
/// and `back_mut`, as those of `BiSliceMut` do.
pub struct IterMut<'a, T> {
    start: &'a mut [T],
    end: &'a mut [T],
}

/// Takes the element at `n` of `s`, giving up the `n` before it; when `s`
/// has no such element, gives `None` and an empty rest.
fn slice_nth_mut<'a, T>(s: &'a mut [T], n: usize) -> (r: (Option<&'a mut T>, &'a mut [T]))
    ensures
        n < old(s)@.len() ==> (r.0 matches Some(x) && *x == old(s)@[n as int] && r.1@ == old(s)@.skip(n + 1) && final(s)@ == old(s)@.take(n as int) + seq![*final(x)] + final(r.1)@),
        n >= old(s)@.len() ==> r.0 is None && r.1@ == Seq::<T>::empty() && final(r.1)@ == Seq::<T>::empty()
            && final(s)@ == old(s)@,
{
    if n < s.len() {
        let (_skipped, rest) = s.split_at_mut(n);
        let (x, rest) = slices::split_first_mut(rest).unwrap();
        (Some(x), rest)
    } else {
        (None, slices::empty_mut())
    }
}

/// Takes the element `n` places before the end of `s`, giving up the `n`
/// after it; when `s` has no such element, gives `None` and an empty rest.
fn slice_nth_back_mut<'a, T>(s: &'a mut [T], n: usize) -> (r: (Option<&'a mut T>, &'a mut [T]))
    ensures
        n < old(s)@.len() ==> (r.0 matches Some(x) && *x == old(s)@[old(s)@.len() - 1 - n]
            && r.1@ == old(s)@.take(old(s)@.len() - 1 - n) && final(s)@ == final(r.1)@.push(
            *final(x)) + old(s)@.skip(old(s)@.len() - n)),
        n >= old(s)@.len() ==> r.0 is None && r.1@ == Seq::<T>::empty() && final(r.1)@ == Seq::<T>::empty()
            && final(s)@ == old(s)@,
{
    if n < s.len() {
        let k = s.len() - n;
        let (rest, _skipped) = s.split_at_mut(k);
        let (x, rest) = slices::split_last_mut(rest).unwrap();
        (Some(x), rest)
    } else {
        (None, slices::empty_mut())
    }
}

impl<'a, T> IterMut<'a, T> {
    /// The borrowed rest of the front slice.
    pub closed spec fn front_mut(self) -> &'a mut [T] {
        self.start
    }

    /// The borrowed rest of the back slice.
    pub closed spec fn back_mut(self) -> &'a mut [T] {
        self.end
    }

    /// What is left of the front slice, as it is now.
    pub open spec fn front(self) -> Seq<T> {
        self.front_mut()@
    }

    /// What is left of the back slice, as it is now.
    pub open spec fn back(self) -> Seq<T> {
        self.back_mut()@
    }

    /// The remaining length fits in a `usize`.
    pub open spec fn fits(self) -> bool {
        self.front().len() + self.back().len() <= usize::MAX
    }
}

impl<'a, T> View for IterMut<'a, T> {
    type V = Seq<T>;

    /// The elements still to come, in order.
    open spec fn view(&self) -> Seq<T> {
        self.front() + self.back()
    }
}

impl<T> Default for IterMut<'_, T> {
    fn default() -> (r: Self)
        ensures
            r.front() == Seq::<T>::empty(),
            r.back() == Seq::<T>::empty(),
            final(r.front_mut())@ == Seq::<T>::empty(),
            final(r.back_mut())@ == Seq::<T>::empty(),
    {
        IterMut { start: slices::empty_mut(), end: slices::empty_mut() }
    }
}

impl<'a, T> IterMut<'a, T> {
    /// An iterator over the elements of `first`, then those of `second`.
    pub fn new(first: &'a mut [T], second: &'a mut [T]) -> (r: Self)
        ensures
            r.front() == old(first)@,
            r.back() == old(second)@,
            final(r.front_mut())@ == final(first)@,
            final(r.back_mut())@ == final(second)@,
    {
        IterMut { start: first, end: second }
    }

    /// An iterator over the elements of `slice`.
    pub fn from_slice(slice: BiSliceMut<'a, T>) -> (r: Self)
        ensures
            r.front() == slice.front(),
            r.back() == slice.back(),
            final(r.front_mut())@ == final(slice.front_mut())@,
            final(r.back_mut())@ == final(slice.back_mut())@,
    {
        let (first, second) = slice.into_mut_slices();
        Self::new(first, second)
    }

    /// The elements still to come, as an exclusive two-slice.
    pub fn into_slice(self) -> (r: BiSliceMut<'a, T>)
        ensures
            r.front() == self.front(),
            r.back() == self.back(),
            final(r.front_mut())@ == final(self.front_mut())@,
            final(r.back_mut())@ == final(self.back_mut())@,
    {
        BiSliceMut::new(self.start, self.end)
    }

    /// The elements still to come, as a shared two-slice.
    pub fn as_ref(&self) -> (r: BiSlice<'_, T>)
        ensures
            r.front() == self.front(),
            r.back() == self.back(),
    {
        BiSlice::new(self.start, self.end)
    }

    /// The next element, exclusively, front first; `None` once nothing is
    /// left, and then the iterator stays as it is.
    pub fn next(&mut self) -> (r: Option<&'a mut T>)
        ensures
            r is Some <==> old(self)@.len() > 0,
            r matches Some(x) ==> *x == old(self)@[0] && final(self)@ == old(self)@.drop_first(),
            r is None ==> *final(self) == *old(self),
            old(self).front().len() > 0 ==> ({
                &&& final(self).front() == old(self).front().drop_first()
                &&& final(self).back_mut() == old(self).back_mut()
                &&& final(old(self).front_mut())@ == seq![*final(r.unwrap())] + final(final(self).front_mut())@
            }),
            old(self).front().len() == 0 && old(self).back().len() > 0 ==> ({
                &&& final(self).front_mut() == old(self).front_mut()
                &&& final(self).back() == old(self).back().drop_first()
                &&& final(old(self).back_mut())@ == seq![*final(r.unwrap())] + final(final(self).back_mut())@
            }),
    {
        if self.start.len() > 0 {
            let mut start: &'a mut [T] = slices::empty_mut();
            core::mem::swap(&mut start, &mut self.start);
            let (v, rest) = slices::split_first_mut(start).unwrap();
            self.start = rest;
            assert(final(self)@ =~= old(self)@.drop_first());
            return Some(v);
        }
        if self.end.len() > 0 {
            let mut end: &'a mut [T] = slices::empty_mut();
            core::mem::swap(&mut end, &mut self.end);
            let (v, rest) = slices::split_first_mut(end).unwrap();
            self.end = rest;
            assert(final(self)@ =~= old(self)@.drop_first());
            Some(v)
        } else {
            None
        }
    }

    /// The element `n` places ahead, exclusively, giving up the `n` before
    /// it; `None`, and nothing left, when fewer than `n + 1` elements remain.
    pub fn nth(&mut self, n: usize) -> (r: Option<&'a mut T>)
        ensures
            r is Some <==> n < old(self)@.len(),
            r matches Some(x) ==> *x == old(self)@[n as int],
            n < old(self)@.len() ==> final(self)@ == old(self)@.skip(n + 1),
            n >= old(self)@.len() ==> final(self)@ == Seq::<T>::empty(),
            n < old(self).front().len() ==> ({
                &&& final(self).front() == old(self).front().skip(n + 1)
                &&& final(self).back_mut() == old(self).back_mut()
                &&& final(old(self).front_mut())@ == old(self).front().take(n as int) + seq![
                    *final(r.unwrap()),
                ] + final(final(self).front_mut())@
            }),
            n >= old(self).front().len() ==> ({
                let k = n - old(self).front().len();
                &&& final(self).front() == Seq::<T>::empty()
                &&& final(old(self).front_mut())@ == old(self).front()
                &&& k < old(self).back().len() ==> final(old(self).back_mut())@ == old(self).back().take(k) + seq![*final(r.unwrap())] + final(final(self).back_mut())@
                &&& k >= old(self).back().len() ==> final(old(self).back_mut())@ == old(self).back()
            }),
    {
        let split = self.start.len();

        let mut start: &'a mut [T] = slices::empty_mut();
        core::mem::swap(&mut start, &mut self.start);
        let (x, rest) = slice_nth_mut(start, n);
        self.start = rest;
        if let Some(x) = x {
            assert(final(self)@ =~= old(self)@.skip(n + 1));
            return Some(x);
        }
        let mut end: &'a mut [T] = slices::empty_mut();
        core::mem::swap(&mut end, &mut self.end);
        let (x, rest) = slice_nth_mut(end, n - split);
        self.end = rest;
        assert(n < old(self)@.len() ==> final(self)@ =~= old(self)@.skip(n + 1));
        x
    }

    /// The exact number of elements left, as lower and upper bound.
    pub fn size_hint(&self) -> (r: (usize, Option<usize>))
        requires
            self.fits(),
        ensures
            r.0 == self@.len(),
            r.1 == Some(self@.len() as usize),
    {
        let len = self.len();
        (len, Some(len))
    }

    /// The next element from the back, exclusively; `None` once nothing is
    /// left, and then the iterator stays as it is.
    pub fn next_back(&mut self) -> (r: Option<&'a mut T>)
        ensures
            r is Some <==> old(self)@.len() > 0,
            r matches Some(x) ==> *x == old(self)@.last() && final(self)@ == old(self)@.drop_last(),
            r is None ==> *final(self) == *old(self),
            old(self).back().len() > 0 ==> ({
                &&& final(self).back() == old(self).back().drop_last()
                &&& final(self).front_mut() == old(self).front_mut()
                &&& final(old(self).back_mut())@ == final(final(self).back_mut())@.push(
                    *final(r.unwrap()))
            }),
            old(self).back().len() == 0 && old(self).front().len() > 0 ==> ({
                &&& final(self).back_mut() == old(self).back_mut()
                &&& final(self).front() == old(self).front().drop_last()
                &&& final(old(self).front_mut())@ == final(final(self).front_mut())@.push(
                    *final(r.unwrap()))
            }),
    {
        if self.end.len() > 0 {
            let mut end: &'a mut [T] = slices::empty_mut();
            core::mem::swap(&mut end, &mut self.end);
            let (v, rest) = slices::split_last_mut(end).unwrap();
            self.end = rest;
            assert(final(self)@ =~= old(self)@.drop_last());
            return Some(v);
        }
        if self.start.len() > 0 {
            let mut start: &'a mut [T] = slices::empty_mut();
            core::mem::swap(&mut start, &mut self.start);
            let (v, rest) = slices::split_last_mut(start).unwrap();
            self.start = rest;
            assert(final(self)@ =~= old(self)@.drop_last());
            Some(v)
        } else {
            None
        }
    }

    /// The element `n` places before the back, exclusively, giving up the
    /// `n` after it; `None`, and nothing left, when fewer than `n + 1`
    /// elements remain.
    pub fn nth_back(&mut self, n: usize) -> (r: Option<&'a mut T>)
        ensures
            r is Some <==> n < old(self)@.len(),
            r matches Some(x) ==> *x == old(self)@[old(self)@.len() - 1 - n],
            n < old(self)@.len() ==> final(self)@ == old(self)@.take(old(self)@.len() - 1 - n),
            n >= old(self)@.len() ==> final(self)@ == Seq::<T>::empty(),
            n < old(self).back().len() ==> ({
                let b = old(self).back().len();
                &&& final(self).back() == old(self).back().take(b - 1 - n)
                &&& final(self).front_mut() == old(self).front_mut()
                &&& final(old(self).back_mut())@ == final(final(self).back_mut())@.push(
                    *final(r.unwrap())) + old(self).back().skip(b - n)
            }),
            n >= old(self).back().len() ==> ({
                let k = n - old(self).back().len();
                let f = old(self).front().len();
                &&& final(self).back() == Seq::<T>::empty()
                &&& final(old(self).back_mut())@ == old(self).back()
                &&& k < f ==> final(old(self).front_mut())@ == final(final(self).front_mut())@.push(*final(r.unwrap())) + old(self).front().skip(f - k)
                &&& k >= f ==> final(old(self).front_mut())@ == old(self).front()
            }),
    {
        let rsplit = self.end.len();

        let mut end: &'a mut [T] = slices::empty_mut();
        core::mem::swap(&mut end, &mut self.end);
        let (x, rest) = slice_nth_back_mut(end, n);
        self.end = rest;
        if let Some(x) = x {
            assert(final(self)@ =~= old(self)@.take(old(self)@.len() - 1 - n));
            return Some(x);
        }
        let mut start: &'a mut [T] = slices::empty_mut();
        core::mem::swap(&mut start, &mut self.start);
        let (x, rest) = slice_nth_back_mut(start, n - rsplit);
        self.start = rest;
        assert(n < old(self)@.len() ==> final(self)@ =~= old(self)@.take(
            old(self)@.len() - 1 - n,
        ));
        x
    }

    /// The number of elements left.
    pub fn len(&self) -> (r: usize)
        requires
            self.fits(),
        ensures
            r == self@.len(),
    {
        self.as_ref().len()
    }
}

} // verus!
