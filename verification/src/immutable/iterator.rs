//! Iteration over the elements of a shared two-slice.
use vstd::prelude::*;

use super::BiSlice;
use crate::slices;

verus! {

/// An iterator over the elements of a two-slice: what is left of the front,
/// then what is left of the back.
pub struct Iter<'a, T> {
    start: &'a [T],
    end: &'a [T],
}

/// Takes the element at `n` of `s`, dropping the `n` before it; when `s` has
/// no such element, gives `None` and drops all of `s`.
fn slice_nth<'a, T>(s: &'a [T], n: usize) -> (r: (Option<&'a T>, &'a [T]))
    ensures
        n < s@.len() ==> (r.0 matches Some(x) && *x == s@[n as int] && r.1@ == s@.skip(n + 1)),
        n >= s@.len() ==> r.0 is None && r.1@ == Seq::<T>::empty(),
{
    if n < s.len() {
        let (_skipped, rest) = s.split_at(n);
        let (x, rest) = slices::split_first(rest).unwrap();
        assert(rest@ =~= s@.skip(n + 1));
        (Some(x), rest)
    } else {
        (None, &[])
    }
}

/// Takes the element `n` places before the end of `s`, dropping the `n`
/// after it; when `s` has no such element, gives `None` and drops all of `s`.
fn slice_nth_back<'a, T>(s: &'a [T], n: usize) -> (r: (Option<&'a T>, &'a [T]))
    ensures
        n < s@.len() ==> (r.0 matches Some(x) && *x == s@[s@.len() - 1 - n] && r.1@ == s@.take(
            s@.len() - 1 - n,
        )),
        n >= s@.len() ==> r.0 is None && r.1@ == Seq::<T>::empty(),
{
    if n < s.len() {
        let (rest, _skipped) = s.split_at(s.len() - n);
        let (x, rest) = slices::split_last(rest).unwrap();
        assert(rest@ =~= s@.take(s@.len() - 1 - n));
        (Some(x), rest)
    } else {
        (None, &[])
    }
}

impl<'a, T> Iter<'a, T> {
    /// What is left of the front slice.
    pub closed spec fn front(self) -> Seq<T> {
        self.start@
    }

    /// What is left of the back slice.
    pub closed spec fn back(self) -> Seq<T> {
        self.end@
    }

    /// The remaining length fits in a `usize`.
    pub open spec fn fits(self) -> bool {
        self.front().len() + self.back().len() <= usize::MAX
    }
}

impl<'a, T> View for Iter<'a, T> {
    type V = Seq<T>;

    /// The elements still to come, in order.
    open spec fn view(&self) -> Seq<T> {
        self.front() + self.back()
    }
}

impl<T> Clone for Iter<'_, T> {
    fn clone(&self) -> (r: Self)
        ensures
            r == *self,
    {
        Iter { start: self.start, end: self.end }
    }
}

impl<T> Default for Iter<'_, T> {
    fn default() -> (r: Self)
        ensures
            r.front() == Seq::<T>::empty(),
            r.back() == Seq::<T>::empty(),
    {
        Iter { start: &[], end: &[] }
    }
}

impl<'a, T> Iter<'a, T> {
    /// An iterator over the elements of `first`, then those of `second`.
    pub fn new(first: &'a [T], second: &'a [T]) -> (r: Self)
        ensures
            r.front() == first@,
            r.back() == second@,
    {
        Iter { start: first, end: second }
    }

    /// An iterator over the elements of `slice`.
    pub fn from_slice(slice: BiSlice<'a, T>) -> (r: Self)
        ensures
            r.front() == slice.front(),
            r.back() == slice.back(),
    {
        let (first, second) = slice.into_slices();
        Self::new(first, second)
    }

    /// The elements still to come, as a two-slice.
    pub fn as_ref(&self) -> (r: BiSlice<'_, T>)
        ensures
            r.front() == self.front(),
            r.back() == self.back(),
    {
        BiSlice::new(self.start, self.end)
    }

    /// The next element, front first; `None` once nothing is left, and then
    /// the iterator stays as it is.
    pub fn next(&mut self) -> (r: Option<&'a T>)
        ensures
            r is Some <==> old(self)@.len() > 0,
            r matches Some(x) ==> *x == old(self)@[0] && final(self)@ == old(self)@.drop_first(),
            r is None ==> *final(self) == *old(self),
            old(self).front().len() > 0 ==> final(self).front() == old(self).front().drop_first()
                && final(self).back() == old(self).back(),
            old(self).front().len() == 0 && old(self).back().len() > 0 ==> final(self).front()
                == old(self).front() && final(self).back() == old(self).back().drop_first(),
    {
        if let Some((v, rest)) = slices::split_first(self.start) {
            self.start = rest;
            assert(final(self)@ =~= old(self)@.drop_first());
            return Some(v);
        }
        match slices::split_first(self.end) {
            Some((v, rest)) => {
                self.end = rest;
                assert(final(self)@ =~= old(self)@.drop_first());
                Some(v)
            },
            None => None,
        }
    }

    /// The element `n` places ahead, skipping the `n` before it; `None`, and
    /// nothing left, when fewer than `n + 1` elements remain.
    pub fn nth(&mut self, n: usize) -> (r: Option<&'a T>)
        ensures
            r is Some <==> n < old(self)@.len(),
            r matches Some(x) ==> *x == old(self)@[n as int],
            n < old(self)@.len() ==> final(self)@ == old(self)@.skip(n + 1),
            n >= old(self)@.len() ==> final(self)@ == Seq::<T>::empty(),
            n < old(self).front().len() ==> final(self).front() == old(self).front().skip(n + 1)
                && final(self).back() == old(self).back(),
            n >= old(self).front().len() ==> final(self).front() == Seq::<T>::empty(),
    {
        let split = self.start.len();

        let (x, rest) = slice_nth(self.start, n);
        self.start = rest;
        if let Some(x) = x {
            assert(final(self)@ =~= old(self)@.skip(n + 1));
            return Some(x);
        }
        let (x, rest) = slice_nth(self.end, n - split);
        self.end = rest;
        assert(n < old(self)@.len() ==> final(self)@ =~= old(self)@.skip(n + 1));
        x
    }

    /// The exact number of elements left, as lower and upper bound.
    pub fn size_hint(&self) -> (r: (usize, Option<usize>))
        requires
            self.fits(),
        ensures
            r.0 == self@.len(),
            r.1 == Some(self@.len() as usize),
    {
        let len = self.len();
        (len, Some(len))
    }

    /// The next element from the back, back first; `None` once nothing is
    /// left, and then the iterator stays as it is.
    pub fn next_back(&mut self) -> (r: Option<&'a T>)
        ensures
            r is Some <==> old(self)@.len() > 0,
            r matches Some(x) ==> *x == old(self)@.last() && final(self)@ == old(self)@.drop_last(),
            r is None ==> *final(self) == *old(self),
            old(self).back().len() > 0 ==> final(self).back() == old(self).back().drop_last()
                && final(self).front() == old(self).front(),
            old(self).back().len() == 0 && old(self).front().len() > 0 ==> final(self).back()
                == old(self).back() && final(self).front() == old(self).front().drop_last(),
    {
        if let Some((v, rest)) = slices::split_last(self.end) {
            self.end = rest;
            assert(final(self)@ =~= old(self)@.drop_last());
            return Some(v);
        }
        match slices::split_last(self.start) {
            Some((v, rest)) => {
                self.start = rest;
                assert(final(self)@ =~= old(self)@.drop_last());
                Some(v)
            },
            None => None,
        }
    }

    /// The element `n` places before the back, skipping the `n` after it;
    /// `None`, and nothing left, when fewer than `n + 1` elements remain.
    pub fn nth_back(&mut self, n: usize) -> (r: Option<&'a T>)
        ensures
            r is Some <==> n < old(self)@.len(),
            r matches Some(x) ==> *x == old(self)@[old(self)@.len() - 1 - n],
            n < old(self)@.len() ==> final(self)@ == old(self)@.take(old(self)@.len() - 1 - n),
            n >= old(self)@.len() ==> final(self)@ == Seq::<T>::empty(),
            n < old(self).back().len() ==> final(self).back() == old(self).back().take(
                old(self).back().len() - 1 - n,
            ) && final(self).front() == old(self).front(),
            n >= old(self).back().len() ==> final(self).back() == Seq::<T>::empty(),
    {
        let rsplit = self.end.len();

        let (x, rest) = slice_nth_back(self.end, n);
        self.end = rest;
        if let Some(x) = x {
            assert(final(self)@ =~= old(self)@.take(old(self)@.len() - 1 - n));
            return Some(x);
        }
        let (x, rest) = slice_nth_back(self.start, n - rsplit);
        self.start = rest;
        assert(n < old(self)@.len() ==> final(self)@ =~= old(self)@.take(
            old(self)@.len() - 1 - n,
        ));
        x
    }

    /// The number of elements left.
    pub fn len(&self) -> (r: usize)
        requires
            self.fits(),
        ensures
            r == self@.len(),
    {
        self.as_ref().len()
    }
}

} // verus!
