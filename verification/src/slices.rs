//! Operations on single slices that the two-slice types are built from.
use core::mem::MaybeUninit;
use vstd::prelude::*;

verus! {

/// Splits `s` at `mid`, or gives `None` when `mid` is past its end.
pub fn split_at_checked<'a, T>(s: &'a [T], mid: usize) -> (r: Option<(&'a [T], &'a [T])>)
    ensures
        r is Some <==> mid <= s@.len(),
        r matches Some(p) ==> p.0@ == s@.take(mid as int) && p.1@ == s@.skip(mid as int),
{
    if mid <= s.len() {
        Some(s.split_at(mid))
    } else {
        None
    }
}

/// The first element of `s` and the rest, or `None` when `s` is empty.
pub fn split_first<'a, T>(s: &'a [T]) -> (r: Option<(&'a T, &'a [T])>)
    ensures
        r is Some <==> s@.len() > 0,
        r matches Some(p) ==> *p.0 == s@[0] && p.1@ == s@.drop_first(),
{
    if s.len() == 0 {
        None
    } else {
        let (head, rest) = s.split_at(1);
        Some((&head[0], rest))
    }
}

/// The last element of `s` and the rest, or `None` when `s` is empty.
pub fn split_last<'a, T>(s: &'a [T]) -> (r: Option<(&'a T, &'a [T])>)
    ensures
        r is Some <==> s@.len() > 0,
        r matches Some(p) ==> *p.0 == s@.last() && p.1@ == s@.drop_last(),
{
    if s.len() == 0 {
        None
    } else {
        let (rest, tail) = s.split_at(s.len() - 1);
        Some((&tail[0], rest))
    }
}

/// The element of `s` at `index`, or `None` when `index` is out of bounds.
pub fn get<'a, T>(s: &'a [T], index: usize) -> (r: Option<&'a T>)
    ensures
        r is Some <==> index < s@.len(),
        r matches Some(x) ==> *x == s@[index as int],
{
    if index < s.len() {
        Some(&s[index])
    } else {
        None
    }
}

/// Splits `s` at `mid` into two exclusive halves, or gives `None` (and
/// leaves `s` as it was) when `mid` is past its end.
pub fn split_at_mut_checked<'a, T>(s: &'a mut [T], mid: usize) -> (r: Option<(&'a mut [T], &'a mut [T])>)
    ensures
        r is Some <==> mid <= old(s)@.len(),
        r matches Some(p) ==> {
            &&& p.0@ == old(s)@.take(mid as int)
            &&& p.1@ == old(s)@.skip(mid as int)
            &&& final(s)@ == final(p.0)@ + final(p.1)@
        },
        r is None ==> final(s)@ == old(s)@,
{
    if mid <= s.len() {
        Some(s.split_at_mut(mid))
    } else {
        None
    }
}

/// The first element of `s` and the rest, exclusively, or `None` when `s`
/// is empty.
pub fn split_first_mut<'a, T>(s: &'a mut [T]) -> (r: Option<(&'a mut T, &'a mut [T])>)
    ensures
        r is Some <==> old(s)@.len() > 0,
        r matches Some(p) ==> {
            &&& *p.0 == old(s)@[0]
            &&& p.1@ == old(s)@.drop_first()
            &&& final(s)@ == seq![*final(p.0)] + final(p.1)@
        },
        r is None ==> final(s)@ == old(s)@,
{
    if s.len() == 0 {
        None
    } else {
        let (head, rest) = s.split_at_mut(1);
        let first = head.first_mut().unwrap();
        Some((first, rest))
    }
}

/// The last element of `s` and the rest, exclusively, or `None` when `s`
/// is empty.
pub fn split_last_mut<'a, T>(s: &'a mut [T]) -> (r: Option<(&'a mut T, &'a mut [T])>)
    ensures
        r is Some <==> old(s)@.len() > 0,
        r matches Some(p) ==> {
            &&& *p.0 == old(s)@.last()
            &&& p.1@ == old(s)@.drop_last()
            &&& final(s)@ == final(p.1)@.push(*final(p.0))
        },
        r is None ==> final(s)@ == old(s)@,
{
    if s.len() == 0 {
        None
    } else {
        let n = s.len() - 1;
        let (rest, tail) = s.split_at_mut(n);
        let last = tail.first_mut().unwrap();
        Some((last, rest))
    }
}

/// The element of `s` at `index`, exclusively, or `None` (leaving `s` as
/// it was) when `index` is out of bounds.
pub fn get_mut<'a, T>(s: &'a mut [T], index: usize) -> (r: Option<&'a mut T>)
    ensures
        r is Some <==> index < old(s)@.len(),
        r matches Some(x) ==> {
            &&& *x == old(s)@[index as int]
            &&& final(s)@ == old(s)@.update(index as int, *final(x))
        },
        r is None ==> final(s)@ == old(s)@,
{
    if index < s.len() {
        let (_before, from) = s.split_at_mut(index);
        from.first_mut()
    } else {
        None
    }
}

/// Copies `src` into `dest`, which has its length.
pub fn copy_from<T: Copy>(dest: &mut [T], src: &[T])
    requires
        old(dest)@.len() == src@.len(),
    ensures
        final(dest)@ == src@,
{
    let n = src.len();
    let mut i: usize = 0;
    while i < n
        invariant
            n == src@.len(),
            dest@.len() == n,
            i <= n,
            forall|j: int| 0 <= j < i ==> dest@[j] == src@[j],
        decreases n - i,
    {
        dest[i] = src[i];
        i = i + 1;
    }
    assert(dest@ =~= src@);
}

/// `Clone::clone_from`, which std documents as equivalent in effect to
/// `*dest = src.clone()` while free to reuse what `dest` holds: the contract
/// claims that `dest` ends up holding a clone of `src`.
#[verifier::external_body]
fn clone_into<T: Clone>(dest: &mut T, src: &T)
    ensures
        cloned::<T>(*src, *final(dest)),
{
    dest.clone_from(src)
}

/// Makes each element of `dest`, which has the length of `src`, a clone of
/// the element of `src` at its place, by `clone_from`.
pub fn clone_from<T: Clone>(dest: &mut [T], src: &[T])
    requires
        old(dest)@.len() == src@.len(),
    ensures
        final(dest)@.len() == src@.len(),
        forall|j: int| 0 <= j < src@.len() ==> cloned::<T>(src@[j], #[trigger] final(dest)@[j]),
{
    let n = src.len();
    let mut i: usize = 0;
    while i < n
        invariant
            n == src@.len(),
            dest@.len() == n,
            i <= n,
            forall|j: int| 0 <= j < i ==> cloned::<T>(src@[j], #[trigger] dest@[j]),
        decreases n - i,
    {
        let place = get_mut(&mut *dest, i).unwrap();
        clone_into(place, &src[i]);
        i = i + 1;
    }
}

/// A fresh exclusive empty slice; it stays empty.
pub fn empty_mut<'a, T>() -> (r: &'a mut [T])
    ensures
        r@ == Seq::<T>::empty(),
        final(r)@ == Seq::<T>::empty(),
{
    &mut []
}

/// Fills the slots of `dest`, which has the length of `src`, with copies of
/// the elements of `src`.
pub fn init_copy_from<T: Copy>(dest: &mut [MaybeUninit<T>], src: &[T])
    requires
        old(dest)@.len() == src@.len(),
    ensures
        final(dest)@.len() == src@.len(),
        forall|j: int| 0 <= j < src@.len() ==> (#[trigger] final(dest)@[j]).as_option() == Some(src@[j]),
{
    let n = src.len();
    let mut i: usize = 0;
    while i < n
        invariant
            n == src@.len(),
            dest@.len() == n,
            i <= n,
            forall|j: int| 0 <= j < i ==> (#[trigger] dest@[j]).as_option() == Some(src@[j]),
        decreases n - i,
    {
        dest[i] = MaybeUninit::new(src[i]);
        i = i + 1;
    }
}

/// Fills the slots of `dest`, which has the length of `src`, with clones of
/// the elements of `src`.
pub fn init_clone_from<T: Clone>(dest: &mut [MaybeUninit<T>], src: &[T])
    requires
        old(dest)@.len() == src@.len(),
    ensures
        final(dest)@.len() == src@.len(),
        forall|j: int|
            0 <= j < src@.len() ==> ((#[trigger] final(dest)@[j]).as_option() matches Some(v) && cloned::<T>(src@[j], v)),
{
    let n = src.len();
    let mut i: usize = 0;
    while i < n
        invariant
            n == src@.len(),
            dest@.len() == n,
            i <= n,
            forall|j: int|
                0 <= j < i ==> ((#[trigger] dest@[j]).as_option() matches Some(v) && cloned::<T>(src@[j], v)),
        decreases n - i,
    {
        let v = src[i].clone();
        dest[i] = MaybeUninit::new(v);
        i = i + 1;
    }
}

} // verus!
