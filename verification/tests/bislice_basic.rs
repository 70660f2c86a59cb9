use bislice::{normalize_range, BiSlice, Bound};

#[test]
fn new_keeps_both_slices() {
    let a = [1u8, 2, 3];
    let b = [4u8, 5];
    let s = BiSlice::new(&a, &b);
    assert_eq!(s.into_slices(), (&a[..], &b[..]));
}

#[test]
fn from_single_has_empty_back() {
    let a = [1u8, 2];
    let s = BiSlice::from_single(&a);
    let (front, back) = s.into_slices();
    assert_eq!(front, &a[..]);
    assert!(back.is_empty());
}

#[test]
fn default_is_empty() {
    let s: BiSlice<'_, u32> = BiSlice::default();
    assert_eq!(s.len(), 0);
    assert!(s.is_empty());
}

#[test]
fn len_counts_both_slices() {
    let a = [1u8, 2, 3];
    let b = [4u8, 5];
    let s = BiSlice::new(&a, &b);
    assert_eq!(s.len(), 5);
    assert!(!s.is_empty());
}

#[test]
fn is_empty_with_two_empty_slices() {
    let s: BiSlice<'_, u8> = BiSlice::new(&[], &[]);
    assert!(s.is_empty());
}

#[test]
fn get_reads_across_the_split() {
    let a = [10u8, 20, 30];
    let b = [40u8, 50];
    let s = BiSlice::new(&a, &b);
    assert_eq!(s.get(0), Some(&10));
    assert_eq!(s.get(2), Some(&30));
    assert_eq!(s.get(3), Some(&40));
    assert_eq!(s.get(4), Some(&50));
    assert_eq!(s.get(5), None);
    assert_eq!(s.get(usize::MAX), None);
}

#[test]
fn index_agrees_with_get() {
    let a = [10u8, 20];
    let b = [30u8];
    let s = BiSlice::new(&a, &b);
    for i in 0..s.len() {
        assert_eq!(Some(&s[i]), s.get(i));
    }
}

#[test]
fn slice_middle_crosses_split() {
    let a = [1u8, 2, 3];
    let b = [4u8, 5];
    let s = BiSlice::new(&a, &b);
    let t = s.slice((Bound::Included(1), Bound::Excluded(4))).unwrap();
    assert_eq!(t.into_slices(), (&a[1..], &b[..1]));
}

#[test]
fn slice_within_front() {
    let a = [1u8, 2, 3];
    let b = [4u8, 5];
    let s = BiSlice::new(&a, &b);
    let t = s.slice((Bound::Excluded(0), Bound::Included(1))).unwrap();
    let (front, back) = t.into_slices();
    assert_eq!(front, &[2u8][..]);
    assert!(back.is_empty());
}

#[test]
fn slice_within_back() {
    let a = [1u8, 2, 3];
    let b = [4u8, 5, 6];
    let s = BiSlice::new(&a, &b);
    let t = s.slice((Bound::Included(4), Bound::Unbounded)).unwrap();
    let (front, back) = t.into_slices();
    assert!(front.is_empty());
    assert_eq!(back, &[5u8, 6][..]);
}

#[test]
fn slice_full_range_is_the_whole() {
    let a = [1u8, 2, 3];
    let b = [4u8];
    let s = BiSlice::new(&a, &b);
    let t = s.slice((Bound::Unbounded, Bound::Unbounded)).unwrap();
    assert_eq!(t.into_slices(), s.into_slices());
}

#[test]
fn slice_empty_range_at_end() {
    let a = [1u8, 2];
    let b = [3u8];
    let s = BiSlice::new(&a, &b);
    let t = s.slice((Bound::Included(3), Bound::Unbounded)).unwrap();
    assert!(t.is_empty());
}

#[test]
fn slice_backwards_range_is_none() {
    let a = [1u8, 2, 3];
    let b = [4u8];
    let s = BiSlice::new(&a, &b);
    assert!(s.slice((Bound::Included(3), Bound::Excluded(2))).is_none());
}

#[test]
fn slice_past_the_end_is_none() {
    let a = [1u8, 2, 3];
    let b = [4u8];
    let s = BiSlice::new(&a, &b);
    assert!(s.slice((Bound::Included(1), Bound::Excluded(5))).is_none());
    assert!(s.slice((Bound::Included(5), Bound::Unbounded)).is_none());
}

#[test]
fn normalize_range_exact_values() {
    assert_eq!(normalize_range(Bound::Included(2), Bound::Excluded(5), 9), (2, 5));
    assert_eq!(normalize_range(Bound::Excluded(2), Bound::Included(5), 9), (3, 6));
    assert_eq!(normalize_range(Bound::Unbounded, Bound::Unbounded, 9), (0, 9));
}

#[test]
fn split_at_in_front() {
    let a = [1u8, 2, 3];
    let b = [4u8, 5];
    let s = BiSlice::new(&a, &b);
    let (l, r) = s.split_at(1).unwrap();
    assert_eq!(l.into_slices(), (&a[..1], &[][..]));
    assert_eq!(r.into_slices(), (&a[1..], &b[..]));
}

#[test]
fn split_at_the_split_point() {
    let a = [1u8, 2, 3];
    let b = [4u8, 5];
    let s = BiSlice::new(&a, &b);
    let (l, r) = s.split_at(3).unwrap();
    assert_eq!(l.into_slices(), (&a[..], &[][..]));
    assert_eq!(r.into_slices(), (&[][..], &b[..]));
}

#[test]
fn split_at_in_back() {
    let a = [1u8, 2, 3];
    let b = [4u8, 5];
    let s = BiSlice::new(&a, &b);
    let (l, r) = s.split_at(4).unwrap();
    assert_eq!(l.into_slices(), (&a[..], &b[..1]));
    assert_eq!(r.into_slices(), (&b[1..], &[][..]));
}

#[test]
fn split_at_past_end_is_none() {
    let a = [1u8, 2, 3];
    let b = [4u8, 5];
    let s = BiSlice::new(&a, &b);
    assert!(s.split_at(6).is_none());
    assert!(s.split_at(5).is_some());
}

#[test]
fn split_first_from_front_then_back() {
    let a = [1u8];
    let b = [2u8, 3];
    let s = BiSlice::new(&a, &b);
    let (x, rest) = s.split_first().unwrap();
    assert_eq!(*x, 1);
    assert_eq!(rest.into_slices(), (&[][..], &b[..]));
    let (y, rest) = rest.split_first().unwrap();
    assert_eq!(*y, 2);
    assert_eq!(rest.into_slices(), (&b[1..], &[][..]));
}

#[test]
fn split_first_of_empty_is_none() {
    let s: BiSlice<'_, u8> = BiSlice::default();
    assert!(s.split_first().is_none());
    assert!(s.split_last().is_none());
}

#[test]
fn split_last_from_back_then_front() {
    let a = [1u8, 2];
    let b = [3u8];
    let s = BiSlice::new(&a, &b);
    let (x, rest) = s.split_last().unwrap();
    assert_eq!(*x, 3);
    assert_eq!(rest.into_slices(), (&a[..], &[][..]));
    let (y, rest) = rest.split_last().unwrap();
    assert_eq!(*y, 2);
    assert_eq!(rest.into_slices(), (&a[..1], &[][..]));
}

#[test]
fn clone_and_copy_keep_the_slices() {
    let a = [1u8, 2];
    let b = [3u8];
    let s = BiSlice::new(&a, &b);
    #[allow(clippy::clone_on_copy)]
    let t = s.clone();
    let u = s;
    assert_eq!(t.into_slices(), u.into_slices());
}

#[test]
fn equality_compares_the_split() {
    let whole = [1u8, 2, 3];
    let s = BiSlice::new(&whole[..1], &whole[1..]);
    let t = BiSlice::new(&whole[..2], &whole[2..]);
    assert!(s != t);
    assert!(s == BiSlice::new(&whole[..1], &whole[1..]));
}
