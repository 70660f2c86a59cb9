//! The exclusive two-slice type.
use core::mem::MaybeUninit;
use vstd::prelude::*;

use vstd::std_specs::convert::FromSpecImpl;

use crate::immutable::{BiSlice, StreamError};
use crate::slices;
use crate::{aligned_portions, normalize_range, Bound};

mod iterator;

pub use iterator::IterMut;

verus! {

/// An exclusive front slice and an exclusive back slice, read as one slice:
/// the elements of the front come first, then those of the back.
///
/// Its contracts speak of the two borrowed slices through `front_mut` and
/// `back_mut`: `x.front_mut()@` is what the front holds now, and
/// `final(x.front_mut())@` what it holds once the borrow ends.
#[derive(PartialEq, Eq, PartialOrd, Ord, Hash)]
pub struct BiSliceMut<'a, T> {
    start: &'a mut [T],
    end: &'a mut [T],
}

impl<'a, T> BiSliceMut<'a, T> {
    /// The borrowed front slice.
    pub closed spec fn front_mut(self) -> &'a mut [T] {
        self.start
    }

    /// The borrowed back slice.
    pub closed spec fn back_mut(self) -> &'a mut [T] {
        self.end
    }

    /// The elements the front slice holds now.
    pub open spec fn front(self) -> Seq<T> {
        self.front_mut()@
    }

    /// The elements the back slice holds now.
    pub open spec fn back(self) -> Seq<T> {
        self.back_mut()@
    }

    /// The length of the whole fits in a `usize` (it always does unless the
    /// elements take no space).
    pub open spec fn fits(self) -> bool {
        self.front().len() + self.back().len() <= usize::MAX
    }
}

impl<'a, T> View for BiSliceMut<'a, T> {
    type V = Seq<T>;

    /// The front followed by the back, as they are now.
    open spec fn view(&self) -> Seq<T> {
        self.front() + self.back()
    }
}

impl<T> Default for BiSliceMut<'_, T> {
    fn default() -> (r: Self)
        ensures
            r.front() == Seq::<T>::empty(),
            r.back() == Seq::<T>::empty(),
            final(r.front_mut())@ == Seq::<T>::empty(),
            final(r.back_mut())@ == Seq::<T>::empty(),
    {
        BiSliceMut { start: slices::empty_mut(), end: slices::empty_mut() }
    }
}

impl<'a, T> BiSliceMut<'a, T> {
    /// The two-slice whose front is `start` and whose back is `end`.
    pub fn new(start: &'a mut [T], end: &'a mut [T]) -> (r: Self)
        ensures
            r.front() == old(start)@,
            r.back() == old(end)@,
            final(r.front_mut())@ == final(start)@,
            final(r.back_mut())@ == final(end)@,
    {
        BiSliceMut { start, end }
    }

    /// The two-slice whose front is `slice` and whose back is empty.
    pub fn from_single(slice: &'a mut [T]) -> (r: Self)
        ensures
            r.front() == old(slice)@,
            r.back() == Seq::<T>::empty(),
            final(r.front_mut())@ == final(slice)@,
            final(r.back_mut())@ == Seq::<T>::empty(),
    {
        Self::new(slice, slices::empty_mut())
    }

    /// The front and the back slice.
    pub fn into_mut_slices(self) -> (r: (&'a mut [T], &'a mut [T]))
        ensures
            r.0@ == self.front(),
            r.1@ == self.back(),
            final(r.0)@ == final(self.front_mut())@,
            final(r.1)@ == final(self.back_mut())@,
    {
        (self.start, self.end)
    }

    /// A shorter exclusive borrow of the same two slices.
    pub fn reborrow_mut(&mut self) -> (r: BiSliceMut<'_, T>)
        ensures
            r.front() == old(self).front(),
            r.back() == old(self).back(),
            final(self).front() == final(r.front_mut())@,
            final(self).back() == final(r.back_mut())@,
            final(final(self).front_mut())@ == final(old(self).front_mut())@,
            final(final(self).back_mut())@ == final(old(self).back_mut())@,
    {
        BiSliceMut::new(self.start, self.end)
    }

    /// A shared borrow of the same two slices.
    pub fn reborrow(&self) -> (r: BiSlice<'_, T>)
        ensures
            r.front() == self.front(),
            r.back() == self.back(),
    {
        BiSlice::new(self.start, self.end)
    }

    /// The same two slices, shared from now on: they keep what they hold.
    pub fn into_ref(self) -> (r: BiSlice<'a, T>)
        ensures
            r.front() == self.front(),
            r.back() == self.back(),
            final(self.front_mut())@ == self.front(),
            final(self.back_mut())@ == self.back(),
    {
        BiSlice::new(self.start, self.end)
    }

    /// The element at `index` of the whole, exclusively, or `None` when
    /// `index` is out of bounds. Only that element can change.
    pub fn get_mut(self, index: usize) -> (r: Option<&'a mut T>)
        ensures
            r is Some <==> index < self@.len(),
            r matches Some(x) ==> *x == self@[index as int],
            r matches Some(x) ==> if index < self.front().len() {
                &&& final(self.front_mut())@ == self.front().update(index as int, *final(x))
                &&& final(self.back_mut())@ == self.back()
            } else {
                &&& final(self.front_mut())@ == self.front()
                &&& final(self.back_mut())@ == self.back().update(
                    index - self.front().len(),
                    *final(x))
            },
            r is None ==> final(self.front_mut())@ == self.front() && final(self.back_mut())@
                == self.back(),
    {
        let (start, end) = self.into_mut_slices();
        if let Some(i) = index.checked_sub(start.len()) {
            slices::get_mut(end, i)
        } else {
            slices::get_mut(start, index)
        }
    }

    /// The part of the whole that `range` selects, exclusively, or `None`
    /// when the range runs backwards or past the end. Only that part can
    /// change; it keeps the split: its front comes from the front, its back
    /// from the back.
    pub fn slice_mut(self, range: (Bound, Bound)) -> (r: Option<Self>)
        requires
            self.fits(),
            range.0.valid_start(),
            range.1.valid_end(),
        ensures
            ({
                let lo = range.0.start_index();
                let hi = range.1.end_index(self@.len() as int);
                let f = self.front().len() as int;
                &&& r is Some <==> 0 <= lo <= hi <= self@.len()
                &&& r matches Some(s) ==> {
                    &&& s@ == self@.subrange(lo, hi)
                    &&& s.front() == self.front().subrange(
                        vstd::math::min(lo, f),
                        vstd::math::min(hi, f),
                    )
                    &&& s.back() == self.back().subrange(
                        vstd::math::max(lo, f) - f,
                        vstd::math::max(hi, f) - f,
                    )
                    &&& final(self.front_mut())@ == self.front().take(vstd::math::min(lo, f))
                        + final(s.front_mut())@ + self.front().skip(vstd::math::min(hi, f))
                    &&& final(self.back_mut())@ == self.back().take(vstd::math::max(lo, f) - f)
                        + final(s.back_mut())@ + self.back().skip(vstd::math::max(hi, f) - f)
                }
                &&& r is None ==> final(self.front_mut())@ == self.front() && final(self.back_mut())@ == self.back()
            }),
    {
        let this_len = self.reborrow().len();
        let (mut start, mut end) = self.into_mut_slices();

        let (start_idx, end_idx) = normalize_range(range.0, range.1, this_len);

        let range_len = match end_idx.checked_sub(start_idx) {
            Some(n) => n,
            None => return None,
        };

        if let Some(k) = start_idx.checked_sub(start.len()) {
            start = slices::empty_mut();
            end = match slices::split_at_mut_checked(end, k) {
                Some((_, rest)) => rest,
                None => return None,
            };
        } else {
            start = start.split_at_mut(start_idx).1;
        }

        if let Some(k) = range_len.checked_sub(start.len()) {
            end = match slices::split_at_mut_checked(end, k) {
                Some((part, _)) => part,
                None => return None,
            };
        } else {
            end = slices::empty_mut();
            start = start.split_at_mut(range_len).0;
        }

        Some(Self::new(start, end))
    }

    /// Copies `slice` into the whole, which must have its length; `None`,
    /// and nothing copied, when the lengths differ.
    pub fn copy_from_slice(self, slice: BiSlice<'_, T>) -> (r: Option<()>) where T: Copy
        requires
            self.fits(),
            slice.fits(),
        ensures
            r is Some <==> self@.len() == slice@.len(),
            r is Some ==> final(self.front_mut())@ == slice@.take(self.front().len() as int)
                && final(self.back_mut())@ == slice@.skip(self.front().len() as int),
            r is Some ==> final(self.front_mut())@ + final(self.back_mut())@ == slice@,
            r is None ==> final(self.front_mut())@ == self.front() && final(self.back_mut())@
                == self.back(),
    {
        match aligned_portions(self, slice) {
            Some((p0, p1, p2)) => {
                slices::copy_from(p0.0, p0.1);
                slices::copy_from(p1.0, p1.1);
                slices::copy_from(p2.0, p2.1);
                Some(())
            },
            None => None,
        }
    }

    /// Fills the whole, which must have the length of `slice`, with clones
    /// of its elements; `None`, and nothing changed, when the lengths differ.
    pub fn clone_from_slice(self, slice: BiSlice<'_, T>) -> (r: Option<()>) where T: Clone
        requires
            self.fits(),
            slice.fits(),
        ensures
            r is Some <==> self@.len() == slice@.len(),
            r is Some ==> {
                let f = self.front().len() as int;
                &&& final(self.front_mut())@.len() == f
                &&& final(self.back_mut())@.len() == self.back().len()
                &&& forall|i: int|
                    0 <= i < f ==> cloned::<T>(slice@[i], #[trigger] final(self.front_mut())@[i])
                &&& forall|i: int|
                    0 <= i < self.back().len() ==> cloned::<T>(
                        slice@[f + i],
                        #[trigger] final(self.back_mut())@[i],
                    )
            },
            r is None ==> final(self.front_mut())@ == self.front() && final(self.back_mut())@
                == self.back(),
    {
        match aligned_portions(self, slice) {
            Some((p0, p1, p2)) => {
                slices::clone_from(p0.0, p0.1);
                slices::clone_from(p1.0, p1.1);
                slices::clone_from(p2.0, p2.1);
                Some(())
            },
            None => None,
        }
    }

    /// The whole split at `mid` into the part before it and the part from it
    /// on, exclusively, or `None` (and nothing changed) when `mid` is past
    /// the end.
    pub fn split_at(self, mid: usize) -> (r: Option<(Self, Self)>)
        ensures
            r is Some <==> mid <= self@.len(),
            r matches Some(p) ==> {
                &&& p.0@ == self@.take(mid as int)
                &&& p.1@ == self@.skip(mid as int)
                &&& p.0@ + p.1@ == self@
                &&& if mid < self.front().len() {
                    &&& p.0.front() == self.front().take(mid as int)
                    &&& p.0.back() == Seq::<T>::empty()
                    &&& final(p.0.back_mut())@ == Seq::<T>::empty()
                    &&& p.1.front() == self.front().skip(mid as int)
                    &&& p.1.back() == self.back()
                    &&& final(self.front_mut())@ == final(p.0.front_mut())@ + final(p.1.front_mut())@
                    &&& final(self.back_mut())@ == final(p.1.back_mut())@
                } else {
                    &&& p.0.front() == self.front()
                    &&& p.0.back() == self.back().take(mid - self.front().len())
                    &&& p.1.front() == self.back().skip(mid - self.front().len())
                    &&& p.1.back() == Seq::<T>::empty()
                    &&& final(p.1.back_mut())@ == Seq::<T>::empty()
                    &&& final(self.front_mut())@ == final(p.0.front_mut())@
                    &&& final(self.back_mut())@ == final(p.0.back_mut())@ + final(p.1.front_mut())@
                }
            },
            r is None ==> final(self.front_mut())@ == self.front() && final(self.back_mut())@
                == self.back(),
    {
        let (start, end) = self.into_mut_slices();
        let r = if let Some(i) = mid.checked_sub(start.len()) {
            match slices::split_at_mut_checked(end, i) {
                Some((a, b)) => Some((Self::new(start, a), Self::from_single(b))),
                None => None,
            }
        } else {
            let (a, b) = start.split_at_mut(mid);
            Some((Self::from_single(a), Self::new(b, end)))
        };
        proof {
            if r is Some {
                let p = r->0;
                assert(p.0@ =~= self@.take(mid as int));
                assert(p.1@ =~= self@.skip(mid as int));
            }
        }
        r
    }

    /// The first element of the whole and the rest, exclusively, or `None`
    /// when the whole is empty.
    pub fn split_first(self) -> (r: Option<(&'a mut T, Self)>)
        ensures
            r is Some <==> self@.len() > 0,
            r matches Some(p) ==> {
                &&& *p.0 == self@[0]
                &&& p.1@ == self@.drop_first()
                &&& seq![*p.0] + p.1@ == self@
                &&& if self.front().len() > 0 {
                    &&& p.1.front() == self.front().drop_first()
                    &&& p.1.back() == self.back()
                    &&& final(self.front_mut())@ == seq![*final(p.0)] + final(p.1.front_mut())@
                    &&& final(self.back_mut())@ == final(p.1.back_mut())@
                } else {
                    &&& p.1.front() == self.back().drop_first()
                    &&& p.1.back() == Seq::<T>::empty()
                    &&& final(p.1.back_mut())@ == Seq::<T>::empty()
                    &&& final(self.front_mut())@ == self.front()
                    &&& final(self.back_mut())@ == seq![*final(p.0)] + final(p.1.front_mut())@
                }
            },
            r is None ==> final(self.front_mut())@ == self.front() && final(self.back_mut())@
                == self.back(),
    {
        let (start, end) = self.into_mut_slices();
        let r = if start.len() > 0 {
            let (first, rem) = slices::split_first_mut(start).unwrap();
            Some((first, Self::new(rem, end)))
        } else {
            match slices::split_first_mut(end) {
                Some((first, rem)) => Some((first, Self::from_single(rem))),
                None => None,
            }
        };
        proof {
            if r is Some {
                let p = r->0;
                assert(p.1@ =~= self@.drop_first());
            }
        }
        r
    }

    /// The last element of the whole and the rest, exclusively, or `None`
    /// when the whole is empty.
    pub fn split_last(self) -> (r: Option<(&'a mut T, Self)>)
        ensures
            r is Some <==> self@.len() > 0,
            r matches Some(p) ==> {
                &&& *p.0 == self@.last()
                &&& p.1@ == self@.drop_last()
                &&& p.1@.push(*p.0) == self@
                &&& if self.back().len() > 0 {
                    &&& p.1.front() == self.front()
                    &&& p.1.back() == self.back().drop_last()
                    &&& final(self.front_mut())@ == final(p.1.front_mut())@
                    &&& final(self.back_mut())@ == final(p.1.back_mut())@.push(*final(p.0))
                } else {
                    &&& p.1.front() == self.front().drop_last()
                    &&& p.1.back() == Seq::<T>::empty()
                    &&& final(p.1.back_mut())@ == Seq::<T>::empty()
                    &&& final(self.front_mut())@ == final(p.1.front_mut())@.push(*final(p.0))
                    &&& final(self.back_mut())@ == self.back()
                }
            },
            r is None ==> final(self.front_mut())@ == self.front() && final(self.back_mut())@
                == self.back(),
    {
        let (start, end) = self.into_mut_slices();
        let r = if end.len() > 0 {
            let (last, rem) = slices::split_last_mut(end).unwrap();
            Some((last, Self::new(start, rem)))
        } else {
            match slices::split_last_mut(start) {
                Some((last, rem)) => Some((last, Self::from_single(rem))),
                None => None,
            }
        };
        proof {
            if r is Some {
                let p = r->0;
                assert(p.1@ =~= self@.drop_last());
            }
        }
        r
    }

    /// An iterator over the elements of the whole, exclusively, front first.
    pub fn iter_mut(self) -> (r: IterMut<'a, T>)
        ensures
            r.front() == self.front(),
            r.back() == self.back(),
            final(r.front_mut())@ == final(self.front_mut())@,
            final(r.back_mut())@ == final(self.back_mut())@,
    {
        IterMut::from_slice(self)
    }
}

impl<T> core::ops::Index<usize> for BiSliceMut<'_, T> {
    type Output = T;

    fn index(&self, index: usize) -> (r: &T)
        ensures
            *r == self@[index as int],
    {
        self.reborrow().get(index).expect("index out of bounds")
    }
}

impl<T> vstd::std_specs::core::IndexSpecImpl<usize> for BiSliceMut<'_, T> {
    /// Indexing asks for an index inside the whole.
    open spec fn index_req(&self, index: &usize) -> bool {
        *index < self@.len()
    }
}

impl<'a, T> BiSliceMut<'a, MaybeUninit<T>> {
    /// Fills the slots of the whole, which must have the length of `slice`,
    /// with copies of its elements, front first; `None`, and nothing
    /// changed, when the lengths differ. Afterwards every slot holds a value.
    pub fn init_copy_of_slice(self, slice: BiSlice<'_, T>) -> (r: Option<()>) where T: Copy
        requires
            self.fits(),
            slice.fits(),
        ensures
            r is Some <==> self@.len() == slice@.len(),
            r is Some ==> {
                let f = self.front().len() as int;
                &&& final(self.front_mut())@.len() == f
                &&& final(self.back_mut())@.len() == self.back().len()
                &&& forall|i: int| 0 <= i < f
                    ==> (#[trigger] final(self.front_mut())@[i]).as_option() == Some(slice@[i])
                &&& forall|i: int| 0 <= i < self.back().len()
                    ==> (#[trigger] final(self.back_mut())@[i]).as_option() == Some(slice@[f + i])
            },
            r is None ==> final(self.front_mut())@ == self.front() && final(self.back_mut())@
                == self.back(),
    {
        match aligned_portions(self, slice) {
            Some((p0, p1, p2)) => {
                slices::init_copy_from(p0.0, p0.1);
                slices::init_copy_from(p1.0, p1.1);
                slices::init_copy_from(p2.0, p2.1);
                Some(())
            },
            None => None,
        }
    }

    /// Fills the slots of the whole, which must have the length of `slice`,
    /// with clones of its elements, front first; `None`, and nothing
    /// changed, when the lengths differ. Afterwards every slot holds a value.
    pub fn init_clone_of_slice(self, slice: BiSlice<'_, T>) -> (r: Option<()>) where T: Clone
        requires
            self.fits(),
            slice.fits(),
        ensures
            r is Some <==> self@.len() == slice@.len(),
            r is Some ==> {
                let f = self.front().len() as int;
                &&& final(self.front_mut())@.len() == f
                &&& final(self.back_mut())@.len() == self.back().len()
                &&& forall|i: int| 0 <= i < f
                    ==> ((#[trigger] final(self.front_mut())@[i]).as_option() matches Some(v)
                        && cloned::<T>(slice@[i], v))
                &&& forall|i: int| 0 <= i < self.back().len()
                    ==> ((#[trigger] final(self.back_mut())@[i]).as_option() matches Some(v)
                        && cloned::<T>(slice@[f + i], v))
            },
            r is None ==> final(self.front_mut())@ == self.front() && final(self.back_mut())@
                == self.back(),
    {
        match aligned_portions(self, slice) {
            Some((p0, p1, p2)) => {
                slices::init_clone_from(p0.0, p0.1);
                slices::init_clone_from(p1.0, p1.1);
                slices::init_clone_from(p2.0, p2.1);
                Some(())
            },
            None => None,
        }
    }
}

impl<'a> BiSliceMut<'a, u8> {
    /// Writes as many bytes of `data` as there is room for over the front of
    /// the whole and drops the part written from the whole; gives their
    /// number.
    pub fn write(&mut self, data: &[u8]) -> (r: usize)
        requires
            old(self).fits(),
        ensures
            r == vstd::math::min(data@.len() as int, old(self)@.len() as int),
            final(self)@ == old(self)@.skip(r as int),
            ({
                let f = old(self).front().len() as int;
                let bytes = data@.take(r as int);
                if r < f {
                    &&& final(self).front() == old(self).front().skip(r as int)
                    &&& final(self).back() == old(self).back()
                    &&& final(old(self).front_mut())@ == bytes + final(final(self).front_mut())@
                    &&& final(old(self).back_mut())@ == final(final(self).back_mut())@
                } else {
                    &&& final(self).front() == old(self).back().skip(r - f)
                    &&& final(self).back() == Seq::<u8>::empty()
                    &&& final(final(self).back_mut())@ == Seq::<u8>::empty()
                    &&& final(old(self).front_mut())@ == bytes.take(f)
                    &&& final(old(self).back_mut())@ == bytes.skip(f) + final(final(self).front_mut())@
                }
            }),
    {
        let amt = data.len().min(self.reborrow().len());
        let mut this = BiSliceMut::default();
        core::mem::swap(&mut this, self);
        let (a, b) = this.split_at(amt).unwrap();
        let (src, _) = data.split_at(amt);
        a.copy_from_slice(BiSlice::from_single(src)).unwrap();
        *self = b;
        amt
    }

    /// Writes the buffers of `bufs` in turn, as `write` does, until the
    /// whole is full or the buffers are written; gives the number of bytes
    /// written.
    pub fn write_vectored(&mut self, bufs: &[&[u8]]) -> (r: usize)
        requires
            old(self).fits(),
        ensures
            ({
                let data = joined(bufs@);
                let f = old(self).front().len() as int;
                let bytes = data.take(r as int);
                &&& r == vstd::math::min(data.len() as int, old(self)@.len() as int)
                &&& final(self)@ == old(self)@.skip(r as int)
                &&& if r < f || bufs@.len() == 0 {
                    &&& final(self).front() == old(self).front().skip(r as int)
                    &&& final(self).back() == old(self).back()
                    &&& final(old(self).front_mut())@ == bytes + final(final(self).front_mut())@
                    &&& final(old(self).back_mut())@ == final(final(self).back_mut())@
                } else {
                    &&& final(self).front() == old(self).back().skip(r - f)
                    &&& final(self).back() == Seq::<u8>::empty()
                    &&& final(final(self).back_mut())@ == Seq::<u8>::empty()
                    &&& final(old(self).front_mut())@ == bytes.take(f)
                    &&& final(old(self).back_mut())@ == bytes.skip(f) + final(final(self).front_mut())@
                }
            }),
    {
        let ghost total = old(self)@.len() as int;
        let ghost f = old(self).front().len() as int;
        let mut nwritten: usize = 0;
        let mut i: usize = 0;
        while i < bufs.len()
            invariant
                self.fits(),
                total == old(self)@.len(),
                total <= usize::MAX,
                f == old(self).front().len(),
                i <= bufs@.len(),
                nwritten == vstd::math::min(joined(bufs@.take(i as int)).len() as int, total),
                self@ == old(self)@.skip(nwritten as int),
                ({
                    let bytes = joined(bufs@.take(i as int)).take(nwritten as int);
                    if nwritten < f || i == 0 {
                        &&& self.front() == old(self).front().skip(nwritten as int)
                        &&& self.back() == old(self).back()
                        &&& final(old(self).front_mut())@ == bytes + final(self.front_mut())@
                        &&& final(old(self).back_mut())@ == final(self.back_mut())@
                    } else {
                        &&& self.front() == old(self).back().skip(nwritten - f)
                        &&& self.back() == Seq::<u8>::empty()
                        &&& final(self.back_mut())@ == Seq::<u8>::empty()
                        &&& final(old(self).front_mut())@ == bytes.take(f)
                        &&& final(old(self).back_mut())@ == bytes.skip(f) + final(self.front_mut())@
                    }
                }),
            ensures
                i == bufs@.len() || (self@.len() == 0 && i > 0),
            decreases bufs@.len() - i,
        {
            proof {
                lemma_joined_take_step(bufs@, i as int);
            }
            let n = self.write(bufs[i]);
            nwritten = nwritten + n;
            i = i + 1;
            if self.reborrow().is_empty() {
                break;
            }
        }
        proof {
            lemma_joined_prefix(bufs@, i as int);
            let done = joined(bufs@.take(i as int));
            assert(joined(bufs@).take(nwritten as int) =~= done.take(nwritten as int));
            if i < bufs@.len() {
                assert(nwritten == total);
            } else {
                assert(bufs@.take(i as int) =~= bufs@);
            }
        }
        nwritten
    }

    /// Writes `data` as `write` does; fails when the whole had no room for
    /// all of it.
    pub fn write_all(&mut self, data: &[u8]) -> (r: Result<(), StreamError>)
        requires
            old(self).fits(),
        ensures
            ({
                let n = vstd::math::min(data@.len() as int, old(self)@.len() as int);
                let f = old(self).front().len() as int;
                let bytes = data@.take(n);
                &&& final(self)@ == old(self)@.skip(n)
                &&& if n < f {
                    &&& final(self).front() == old(self).front().skip(n)
                    &&& final(self).back() == old(self).back()
                    &&& final(old(self).front_mut())@ == bytes + final(final(self).front_mut())@
                    &&& final(old(self).back_mut())@ == final(final(self).back_mut())@
                } else {
                    &&& final(self).front() == old(self).back().skip(n - f)
                    &&& final(self).back() == Seq::<u8>::empty()
                    &&& final(final(self).back_mut())@ == Seq::<u8>::empty()
                    &&& final(old(self).front_mut())@ == bytes.take(f)
                    &&& final(old(self).back_mut())@ == bytes.skip(f) + final(final(self).front_mut())@
                }
                &&& r is Ok <==> data@.len() <= old(self)@.len()
                &&& r matches Err(e) ==> e == StreamError::WriteZero
            }),
    {
        let n = self.write(data);
        if n >= data.len() {
            Ok(())
        } else {
            Err(StreamError::WriteZero)
        }
    }
}

/// The bytes of the buffers of `bufs`, one after another.
pub open spec fn joined(bufs: Seq<&[u8]>) -> Seq<u8>
    decreases bufs.len(),
{
    if bufs.len() == 0 {
        Seq::empty()
    } else {
        joined(bufs.drop_last()) + bufs.last()@
    }
}

proof fn lemma_joined_take_step(bufs: Seq<&[u8]>, i: int)
    requires
        0 <= i < bufs.len(),
    ensures
        joined(bufs.take(i + 1)) == joined(bufs.take(i)) + bufs[i]@,
{
    assert(bufs.take(i + 1).drop_last() =~= bufs.take(i));
}

proof fn lemma_joined_prefix(bufs: Seq<&[u8]>, i: int)
    requires
        0 <= i <= bufs.len(),
    ensures
        joined(bufs.take(i)).len() <= joined(bufs).len(),
        joined(bufs).take(joined(bufs.take(i)).len() as int) == joined(bufs.take(i)),
    decreases bufs.len() - i,
{
    if i == bufs.len() {
        assert(bufs.take(i) =~= bufs);
        assert(joined(bufs).take(joined(bufs).len() as int) =~= joined(bufs));
    } else {
        lemma_joined_prefix(bufs, i + 1);
        lemma_joined_take_step(bufs, i);
        let a = joined(bufs.take(i));
        let b = joined(bufs.take(i + 1));
        assert(b.take(a.len() as int) =~= a);
        assert(joined(bufs).take(a.len() as int) =~= joined(bufs).take(b.len() as int).take(
            a.len() as int,
        ));
    }
}

impl<'a, T> From<&'a mut [T]> for BiSliceMut<'a, T> {
    /// The slice as the front, with an empty back.
    fn from(value: &'a mut [T]) -> (r: Self)
        ensures
            r.front() == old(value)@,
            r.back() == Seq::<T>::empty(),
            final(r.front_mut())@ == final(value)@,
            final(r.back_mut())@ == Seq::<T>::empty(),
    {
        Self::from_single(value)
    }
}

impl<'a, T> FromSpecImpl<&'a mut [T]> for BiSliceMut<'a, T> {
    /// An exclusive borrow is handed on as a new borrow, which no value
    /// names in advance: what `from` gives is stated in its own `ensures`.
    open spec fn obeys_from_spec() -> bool {
        false
    }

    closed spec fn from_spec(v: &'a mut [T]) -> Self {
        vstd::pervasive::arbitrary()
    }
}

impl<'a, T> From<(&'a mut [T],)> for BiSliceMut<'a, T> {
    /// The slice as the front, with an empty back.
    fn from(value: (&'a mut [T],)) -> (r: Self)
        ensures
            r.front() == old(value.0)@,
            r.back() == Seq::<T>::empty(),
            final(r.front_mut())@ == final(value.0)@,
            final(r.back_mut())@ == Seq::<T>::empty(),
    {
        Self::from_single(value.0)
    }
}

impl<'a, T> FromSpecImpl<(&'a mut [T],)> for BiSliceMut<'a, T> {
    /// An exclusive borrow is handed on as a new borrow, which no value
    /// names in advance: what `from` gives is stated in its own `ensures`.
    open spec fn obeys_from_spec() -> bool {
        false
    }

    closed spec fn from_spec(v: (&'a mut [T],)) -> Self {
        vstd::pervasive::arbitrary()
    }
}

impl<'a, T> From<(&'a mut [T], &'a mut [T])> for BiSliceMut<'a, T> {
    /// The first slice as the front, the second as the back.
    fn from(value: (&'a mut [T], &'a mut [T])) -> (r: Self)
        ensures
            r.front() == old(value.0)@,
            r.back() == old(value.1)@,
            final(r.front_mut())@ == final(value.0)@,
            final(r.back_mut())@ == final(value.1)@,
    {
        Self::new(value.0, value.1)
    }
}

impl<'a, T> FromSpecImpl<(&'a mut [T], &'a mut [T])> for BiSliceMut<'a, T> {
    /// An exclusive borrow is handed on as a new borrow, which no value
    /// names in advance: what `from` gives is stated in its own `ensures`.
    open spec fn obeys_from_spec() -> bool {
        false
    }

    closed spec fn from_spec(v: (&'a mut [T], &'a mut [T])) -> Self {
        vstd::pervasive::arbitrary()
    }
}

impl<'a, T> From<BiSliceMut<'a, T>> for (&'a mut [T], &'a mut [T]) {
    /// The front and the back.
    fn from(value: BiSliceMut<'a, T>) -> (r: Self)
        ensures
            r.0@ == value.front(),
            r.1@ == value.back(),
            final(r.0)@ == final(value.front_mut())@,
            final(r.1)@ == final(value.back_mut())@,
    {
        value.into_mut_slices()
    }
}

impl<'a, T> FromSpecImpl<BiSliceMut<'a, T>> for (&'a mut [T], &'a mut [T]) {
    /// An exclusive borrow is handed on as a new borrow, which no value
    /// names in advance: what `from` gives is stated in its own `ensures`.
    open spec fn obeys_from_spec() -> bool {
        false
    }

    closed spec fn from_spec(v: BiSliceMut<'a, T>) -> Self {
        vstd::pervasive::arbitrary()
    }
}

impl<'a, T> From<BiSliceMut<'a, T>> for (&'a mut [T], &'a [T]) {
    /// The front, still exclusive, and the back, shared from now on.
    fn from(value: BiSliceMut<'a, T>) -> (r: Self)
        ensures
            r.0@ == value.front(),
            r.1@ == value.back(),
            final(r.0)@ == final(value.front_mut())@,
            final(value.back_mut())@ == value.back(),
    {
        let (start, end) = value.into_mut_slices();
        (start, end)
    }
}

impl<'a, T> FromSpecImpl<BiSliceMut<'a, T>> for (&'a mut [T], &'a [T]) {
    /// An exclusive borrow is handed on as a new borrow, which no value
    /// names in advance: what `from` gives is stated in its own `ensures`.
    open spec fn obeys_from_spec() -> bool {
        false
    }

    closed spec fn from_spec(v: BiSliceMut<'a, T>) -> Self {
        vstd::pervasive::arbitrary()
    }
}

impl<'a, T> From<BiSliceMut<'a, T>> for (&'a [T], &'a mut [T]) {
    /// The front, shared from now on, and the back, still exclusive.
    fn from(value: BiSliceMut<'a, T>) -> (r: Self)
        ensures
            r.0@ == value.front(),
            r.1@ == value.back(),
            final(value.front_mut())@ == value.front(),
            final(r.1)@ == final(value.back_mut())@,
    {
        let (start, end) = value.into_mut_slices();
        (start, end)
    }
}

impl<'a, T> FromSpecImpl<BiSliceMut<'a, T>> for (&'a [T], &'a mut [T]) {
    /// An exclusive borrow is handed on as a new borrow, which no value
    /// names in advance: what `from` gives is stated in its own `ensures`.
    open spec fn obeys_from_spec() -> bool {
        false
    }

    closed spec fn from_spec(v: BiSliceMut<'a, T>) -> Self {
        vstd::pervasive::arbitrary()
    }
}

impl<'a, T> From<BiSliceMut<'a, T>> for [&'a mut [T]; 2] {
    /// The front and the back.
    fn from(value: BiSliceMut<'a, T>) -> (r: Self)
        ensures
            r[0]@ == value.front(),
            r[1]@ == value.back(),
            final(r[0])@ == final(value.front_mut())@,
            final(r[1])@ == final(value.back_mut())@,
    {
        let (start, end) = value.into_mut_slices();
        [start, end]
    }
}

impl<'a, T> FromSpecImpl<BiSliceMut<'a, T>> for [&'a mut [T]; 2] {
    /// An exclusive borrow is handed on as a new borrow, which no value
    /// names in advance: what `from` gives is stated in its own `ensures`.
    open spec fn obeys_from_spec() -> bool {
        false
    }

    closed spec fn from_spec(v: BiSliceMut<'a, T>) -> Self {
        vstd::pervasive::arbitrary()
    }
}

impl<'a, T> From<BiSliceMut<'a, T>> for (&'a [T], &'a [T]) {
    /// The front and the back, shared from now on: they keep what they hold.
    fn from(value: BiSliceMut<'a, T>) -> (r: Self)
        ensures
            r.0@ == value.front(),
            r.1@ == value.back(),
            final(value.front_mut())@ == value.front(),
            final(value.back_mut())@ == value.back(),
    {
        let (start, end) = value.into_mut_slices();
        let r: (&'a [T], &'a [T]) = (start, end);
        proof {
            broadcast use vstd::slice::group_slice_axioms;

            let s: (&'a [T], &'a [T]) = (value.front_mut(), value.back_mut());
            assert(r.0 =~= s.0);
            assert(r.1 =~= s.1);
        }
        r
    }
}

impl<'a, T> FromSpecImpl<BiSliceMut<'a, T>> for (&'a [T], &'a [T]) {
    open spec fn obeys_from_spec() -> bool {
        true
    }

    /// The front and the back as they are when the conversion happens.
    closed spec fn from_spec(v: BiSliceMut<'a, T>) -> Self {
        (v.front_mut(), v.back_mut())
    }
}

impl<'a, T> From<BiSliceMut<'a, T>> for [&'a [T]; 2] {
    /// The front and the back, shared from now on: they keep what they hold.
    fn from(value: BiSliceMut<'a, T>) -> (r: Self)
        ensures
            r[0]@ == value.front(),
            r[1]@ == value.back(),
            final(value.front_mut())@ == value.front(),
            final(value.back_mut())@ == value.back(),
    {
        let (start, end) = value.into_mut_slices();
        let r: [&'a [T]; 2] = [start, end];
        proof {
            broadcast use vstd::slice::group_slice_axioms;

            let s: [&'a [T]; 2] = [value.front_mut(), value.back_mut()];
            assert(r[0] =~= s[0]);
            assert(r[1] =~= s[1]);
            assert(r =~= s);
        }
        r
    }
}

impl<'a, T> FromSpecImpl<BiSliceMut<'a, T>> for [&'a [T]; 2] {
    open spec fn obeys_from_spec() -> bool {
        true
    }

    /// The front and the back as they are when the conversion happens.
    closed spec fn from_spec(v: BiSliceMut<'a, T>) -> Self {
        [v.front_mut(), v.back_mut()]
    }
}

impl<'a, T> From<[&'a mut [T]; 2]> for BiSliceMut<'a, T> {
    /// The first slice as the front, the second as the back.
    fn from(value: [&'a mut [T]; 2]) -> (r: Self)
        ensures
            r.front() == value[0]@,
            r.back() == value[1]@,
            final(r.front_mut())@ == final(value[0])@,
            final(r.back_mut())@ == final(value[1])@,
    {
        let mut value = value;
        let mut start = slices::empty_mut();
        let mut end = slices::empty_mut();
        core::mem::swap(&mut start, &mut value[0]);
        core::mem::swap(&mut end, &mut value[1]);
        Self::new(start, end)
    }
}

impl<'a, T> FromSpecImpl<[&'a mut [T]; 2]> for BiSliceMut<'a, T> {
    /// An exclusive borrow is handed on as a new borrow, which no value
    /// names in advance: what `from` gives is stated in its own `ensures`.
    open spec fn obeys_from_spec() -> bool {
        false
    }

    closed spec fn from_spec(v: [&'a mut [T]; 2]) -> Self {
        vstd::pervasive::arbitrary()
    }
}

impl<'a, T> From<[&'a mut [T]; 1]> for BiSliceMut<'a, T> {
    /// The slice as the front, with an empty back.
    fn from(value: [&'a mut [T]; 1]) -> (r: Self)
        ensures
            r.front() == value[0]@,
            r.back() == Seq::<T>::empty(),
            final(r.front_mut())@ == final(value[0])@,
            final(r.back_mut())@ == Seq::<T>::empty(),
    {
        let mut value = value;
        let mut start = slices::empty_mut();
        core::mem::swap(&mut start, &mut value[0]);
        Self::from_single(start)
    }
}

impl<'a, T> FromSpecImpl<[&'a mut [T]; 1]> for BiSliceMut<'a, T> {
    /// An exclusive borrow is handed on as a new borrow, which no value
    /// names in advance: what `from` gives is stated in its own `ensures`.
    open spec fn obeys_from_spec() -> bool {
        false
    }

    closed spec fn from_spec(v: [&'a mut [T]; 1]) -> Self {
        vstd::pervasive::arbitrary()
    }
}

} // verus!
