use bislice::{BiSlice, BiSliceMut, Bound};
use std::mem::MaybeUninit;

#[test]
fn new_mut_and_into_mut_slices() {
    let mut a = [1u8, 2];
    let mut b = [3u8];
    let s = BiSliceMut::new(&mut a, &mut b);
    let (front, back) = s.into_mut_slices();
    front[0] = 9;
    back[0] = 8;
    assert_eq!(a, [9, 2]);
    assert_eq!(b, [8]);
}

#[test]
fn from_single_mut_has_empty_back() {
    let mut a = [1u8, 2];
    let s = BiSliceMut::from_single(&mut a);
    assert_eq!(s.reborrow().len(), 2);
    let (_, back) = s.into_mut_slices();
    assert!(back.is_empty());
}

#[test]
fn default_mut_is_empty() {
    let s: BiSliceMut<'_, u8> = BiSliceMut::default();
    assert!(s.reborrow().is_empty());
}

#[test]
fn get_mut_writes_into_the_right_slice() {
    let mut a = [1u8, 2, 3];
    let mut b = [4u8, 5];
    {
        let s = BiSliceMut::new(&mut a, &mut b);
        *s.get_mut(3).unwrap() = 40;
    }
    {
        let s = BiSliceMut::new(&mut a, &mut b);
        *s.get_mut(1).unwrap() = 20;
    }
    assert_eq!(a, [1, 20, 3]);
    assert_eq!(b, [40, 5]);
}

#[test]
fn get_mut_out_of_bounds_is_none() {
    let mut a = [1u8, 2, 3];
    let mut b = [4u8, 5];
    let s = BiSliceMut::new(&mut a, &mut b);
    assert!(s.get_mut(5).is_none());
    assert_eq!(a, [1, 2, 3]);
}

#[test]
fn reborrow_mut_then_use_again() {
    let mut a = [1u8, 2];
    let mut b = [3u8];
    let mut s = BiSliceMut::new(&mut a, &mut b);
    *s.reborrow_mut().get_mut(0).unwrap() = 7;
    *s.reborrow_mut().get_mut(2).unwrap() = 9;
    assert_eq!(s.reborrow().get(0), Some(&7));
    assert_eq!(s[2], 9);
    drop(s);
    assert_eq!(a, [7, 2]);
    assert_eq!(b, [9]);
}

#[test]
fn into_ref_keeps_contents() {
    let mut a = [1u8, 2];
    let mut b = [3u8];
    let s = BiSliceMut::new(&mut a, &mut b);
    let r = s.into_ref();
    assert_eq!(r.into_slices(), (&[1u8, 2][..], &[3u8][..]));
}

#[test]
fn slice_mut_writes_only_the_range() {
    let mut a = [1u8, 2, 3];
    let mut b = [4u8, 5, 6];
    {
        let s = BiSliceMut::new(&mut a, &mut b);
        let t = s.slice_mut((Bound::Included(2), Bound::Excluded(5))).unwrap();
        let src_a = [0u8];
        let src_b = [0u8, 0];
        t.copy_from_slice(BiSlice::new(&src_a, &src_b)).unwrap();
    }
    assert_eq!(a, [1, 2, 0]);
    assert_eq!(b, [0, 0, 6]);
}

#[test]
fn slice_mut_invalid_ranges_are_none() {
    let mut a = [1u8, 2, 3];
    let mut b = [4u8];
    let s = BiSliceMut::new(&mut a, &mut b);
    assert!(s.slice_mut((Bound::Included(3), Bound::Excluded(1))).is_none());
    let s = BiSliceMut::new(&mut a, &mut b);
    assert!(s.slice_mut((Bound::Unbounded, Bound::Included(4))).is_none());
}

#[test]
fn copy_from_slice_fills_both_parts() {
    let mut a = [0u8; 2];
    let mut b = [0u8; 3];
    let src_a = [1u8, 2, 3, 4];
    let src_b = [5u8];
    let s = BiSliceMut::new(&mut a, &mut b);
    assert_eq!(s.copy_from_slice(BiSlice::new(&src_a, &src_b)), Some(()));
    assert_eq!(a, [1, 2]);
    assert_eq!(b, [3, 4, 5]);
}

#[test]
fn copy_from_slice_with_longer_source_front() {
    let mut a = [0u8; 3];
    let mut b = [0u8; 2];
    let src_a = [1u8];
    let src_b = [2u8, 3, 4, 5];
    let s = BiSliceMut::new(&mut a, &mut b);
    assert_eq!(s.copy_from_slice(BiSlice::new(&src_a, &src_b)), Some(()));
    assert_eq!(a, [1, 2, 3]);
    assert_eq!(b, [4, 5]);
}

#[test]
fn copy_from_slice_length_mismatch_is_none() {
    let mut a = [0u8; 2];
    let mut b = [0u8; 1];
    let src = [1u8, 2];
    let s = BiSliceMut::new(&mut a, &mut b);
    assert_eq!(s.copy_from_slice(BiSlice::from_single(&src)), None);
    assert_eq!(a, [0, 0]);
    assert_eq!(b, [0]);
}

#[test]
fn clone_from_slice_fills_both_parts() {
    let mut a = [String::new(), String::new()];
    let mut b = [String::new()];
    let src = [String::from("x"), String::from("y"), String::from("z")];
    let s = BiSliceMut::new(&mut a, &mut b);
    assert_eq!(s.clone_from_slice(BiSlice::from_single(&src)), Some(()));
    assert_eq!(a, [String::from("x"), String::from("y")]);
    assert_eq!(b, [String::from("z")]);
}

#[test]
fn clone_from_slice_length_mismatch_is_none() {
    let mut a = [String::new()];
    let src = [String::from("x"), String::from("y")];
    let s = BiSliceMut::from_single(&mut a);
    assert_eq!(s.clone_from_slice(BiSlice::from_single(&src)), None);
    assert_eq!(a, [String::new()]);
}

#[test]
fn split_at_mut_in_front_and_at_split() {
    let mut a = [1u8, 2, 3];
    let mut b = [4u8, 5];
    {
        let s = BiSliceMut::new(&mut a, &mut b);
        let (l, r) = s.split_at(1).unwrap();
        assert_eq!(l.reborrow().into_slices(), (&[1u8][..], &[][..]));
        assert_eq!(r.reborrow().into_slices(), (&[2u8, 3][..], &[4u8, 5][..]));
    }
    let s = BiSliceMut::new(&mut a, &mut b);
    let (l, r) = s.split_at(3).unwrap();
    assert_eq!(l.reborrow().into_slices(), (&[1u8, 2, 3][..], &[][..]));
    assert_eq!(r.reborrow().into_slices(), (&[4u8, 5][..], &[][..]));
}

#[test]
fn split_at_mut_in_back_and_past_end() {
    let mut a = [1u8, 2, 3];
    let mut b = [4u8, 5];
    {
        let s = BiSliceMut::new(&mut a, &mut b);
        let (l, r) = s.split_at(4).unwrap();
        assert_eq!(l.reborrow().into_slices(), (&[1u8, 2, 3][..], &[4u8][..]));
        assert_eq!(r.reborrow().into_slices(), (&[5u8][..], &[][..]));
    }
    let s = BiSliceMut::new(&mut a, &mut b);
    assert!(s.split_at(6).is_none());
}

#[test]
fn split_first_and_last_mut() {
    let mut a = [1u8];
    let mut b = [2u8, 3];
    {
        let s = BiSliceMut::new(&mut a, &mut b);
        let (x, rest) = s.split_first().unwrap();
        *x = 10;
        let (y, rest) = rest.split_first().unwrap();
        *y = 20;
        let (z, rest) = rest.split_last().unwrap();
        *z = 30;
        assert!(rest.split_last().is_none());
    }
    assert_eq!(a, [10]);
    assert_eq!(b, [20, 30]);
}

#[test]
fn split_last_mut_from_front_when_back_empty() {
    let mut a = [1u8, 2];
    let s = BiSliceMut::from_single(&mut a);
    let (x, rest) = s.split_last().unwrap();
    *x = 9;
    assert_eq!(rest.reborrow().into_slices(), (&[1u8][..], &[][..]));
    drop(rest);
    assert_eq!(a, [1, 9]);
}

#[test]
fn index_mut_view_reads() {
    let mut a = [1u8, 2];
    let mut b = [3u8];
    let s = BiSliceMut::new(&mut a, &mut b);
    assert_eq!(s[0], 1);
    assert_eq!(s[2], 3);
}

#[test]
fn init_copy_of_slice_fills_slots() {
    let mut a = [MaybeUninit::<u8>::uninit(); 2];
    let mut b = [MaybeUninit::<u8>::uninit(); 1];
    let src = [7u8, 8, 9];
    let s = BiSliceMut::new(&mut a, &mut b);
    assert_eq!(s.init_copy_of_slice(BiSlice::from_single(&src)), Some(()));
    let s = BiSliceMut::new(&mut a, &mut b);
    assert_eq!(s.init_copy_of_slice(BiSlice::from_single(&src[..2])), None);
}

#[test]
fn init_clone_of_slice_length_mismatch_is_none() {
    let mut a = [MaybeUninit::<u8>::uninit(); 2];
    let src = [7u8, 8, 9];
    let s = BiSliceMut::from_single(&mut a);
    assert_eq!(s.init_clone_of_slice(BiSlice::from_single(&src)), None);
}

#[test]
fn init_clone_of_slice_fills_slots() {
    let mut a = [MaybeUninit::<u8>::uninit(); 1];
    let mut b = [MaybeUninit::<u8>::uninit(); 2];
    let src_a = [1u8, 2];
    let src_b = [3u8];
    let s = BiSliceMut::new(&mut a, &mut b);
    assert_eq!(s.init_clone_of_slice(BiSlice::new(&src_a, &src_b)), Some(()));
}
