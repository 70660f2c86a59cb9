use bislice::{BiSlice, BiSliceMut, Iter, IterMut};

fn collect<'a>(mut it: Iter<'a, u8>) -> Vec<u8> {
    let mut out = Vec::new();
    while let Some(x) = it.next() {
        out.push(*x);
    }
    out
}

#[test]
fn iter_yields_front_then_back() {
    let a = [1u8, 2];
    let b = [3u8, 4];
    assert_eq!(collect(BiSlice::new(&a, &b).iter()), vec![1, 2, 3, 4]);
}

#[test]
fn iter_new_and_from_slice_agree() {
    let a = [1u8, 2];
    let b = [3u8];
    let x = collect(Iter::new(&a, &b));
    let y = collect(Iter::from_slice(BiSlice::new(&a, &b)));
    assert_eq!(x, y);
}

#[test]
fn iter_is_fused() {
    let a = [1u8];
    let mut it = BiSlice::from_single(&a).iter();
    assert_eq!(it.next(), Some(&1));
    assert_eq!(it.next(), None);
    assert_eq!(it.next(), None);
    assert_eq!(it.next_back(), None);
}

#[test]
fn iter_default_is_empty() {
    let mut it: Iter<'_, u8> = Iter::default();
    assert_eq!(it.len(), 0);
    assert_eq!(it.next(), None);
}

#[test]
fn iter_len_and_size_hint_are_exact() {
    let a = [1u8, 2];
    let b = [3u8, 4, 5];
    let mut it = BiSlice::new(&a, &b).iter();
    assert_eq!(it.len(), 5);
    assert_eq!(it.size_hint(), (5, Some(5)));
    it.next();
    it.next_back();
    assert_eq!(it.len(), 3);
    assert_eq!(it.size_hint(), (3, Some(3)));
}

#[test]
fn iter_next_back_yields_back_then_front() {
    let a = [1u8, 2];
    let b = [3u8];
    let mut it = BiSlice::new(&a, &b).iter();
    assert_eq!(it.next_back(), Some(&3));
    assert_eq!(it.next_back(), Some(&2));
    assert_eq!(it.next(), Some(&1));
    assert_eq!(it.next_back(), None);
}

#[test]
fn iter_nth_in_front_and_back() {
    let a = [1u8, 2, 3];
    let b = [4u8, 5, 6];
    let mut it = BiSlice::new(&a, &b).iter();
    assert_eq!(it.nth(1), Some(&2));
    assert_eq!(it.as_ref().into_slices(), (&a[2..], &b[..]));
    assert_eq!(it.nth(2), Some(&5));
    assert_eq!(it.as_ref().into_slices(), (&[][..], &b[2..]));
    assert_eq!(it.nth(1), None);
    assert_eq!(it.len(), 0);
}

#[test]
fn iter_nth_back_in_back_and_front() {
    let a = [1u8, 2, 3];
    let b = [4u8, 5];
    let mut it = BiSlice::new(&a, &b).iter();
    assert_eq!(it.nth_back(0), Some(&5));
    assert_eq!(it.nth_back(2), Some(&2));
    assert_eq!(it.as_ref().into_slices(), (&a[..1], &[][..]));
    assert_eq!(it.nth_back(3), None);
    assert!(it.as_ref().is_empty());
}

#[test]
fn iter_clone_is_independent() {
    let a = [1u8, 2];
    let mut it = BiSlice::from_single(&a).iter();
    let mut other = it.clone();
    assert_eq!(it.next(), Some(&1));
    assert_eq!(other.next(), Some(&1));
    assert_eq!(other.next(), Some(&2));
    assert_eq!(it.next(), Some(&2));
}

#[test]
fn iter_mut_sets_every_element() {
    let mut a = [1u8, 2];
    let mut b = [3u8];
    {
        let mut it = BiSliceMut::new(&mut a, &mut b).iter_mut();
        while let Some(x) = it.next() {
            *x *= 10;
        }
    }
    assert_eq!(a, [10, 20]);
    assert_eq!(b, [30]);
}

#[test]
fn iter_mut_new_and_into_slice() {
    let mut a = [1u8, 2];
    let mut b = [3u8];
    let mut it = IterMut::new(&mut a, &mut b);
    *it.next().unwrap() = 5;
    let rest = it.into_slice();
    assert_eq!(rest.reborrow().into_slices(), (&[2u8][..], &[3u8][..]));
    drop(rest);
    assert_eq!(a, [5, 2]);
}

#[test]
fn iter_mut_from_slice_and_as_ref() {
    let mut a = [1u8, 2];
    let mut b = [3u8, 4];
    let mut it = IterMut::from_slice(BiSliceMut::new(&mut a, &mut b));
    assert_eq!(it.as_ref().len(), 4);
    assert_eq!(it.size_hint(), (4, Some(4)));
    *it.next_back().unwrap() = 40;
    assert_eq!(it.len(), 3);
    assert_eq!(it.as_ref().into_slices(), (&[1u8, 2][..], &[3u8][..]));
}

#[test]
fn iter_mut_nth_and_nth_back() {
    let mut a = [1u8, 2, 3];
    let mut b = [4u8, 5, 6];
    {
        let mut it = BiSliceMut::new(&mut a, &mut b).iter_mut();
        *it.nth(3).unwrap() = 40;
        *it.nth_back(1).unwrap() = 50;
        assert_eq!(it.len(), 0);
        assert!(it.nth(0).is_none());
        assert!(it.next_back().is_none());
    }
    assert_eq!(a, [1, 2, 3]);
    assert_eq!(b, [40, 50, 6]);
}

#[test]
fn iter_mut_nth_past_end_empties() {
    let mut a = [1u8, 2];
    let mut b = [3u8];
    let mut it = BiSliceMut::new(&mut a, &mut b).iter_mut();
    assert!(it.nth(3).is_none());
    assert_eq!(it.len(), 0);
}

#[test]
fn iter_mut_nth_back_from_front() {
    let mut a = [1u8, 2, 3];
    let mut b = [4u8];
    {
        let mut it = BiSliceMut::new(&mut a, &mut b).iter_mut();
        *it.nth_back(2).unwrap() = 20;
        assert_eq!(it.as_ref().into_slices(), (&[1u8][..], &[][..]));
    }
    assert_eq!(a, [1, 20, 3]);
}

#[test]
fn iter_mut_default_is_empty() {
    let mut it: IterMut<'_, u8> = IterMut::default();
    assert!(it.next().is_none());
}
