use bislice::{BiSlice, BiSliceMut};

#[test]
fn from_shared_slice() {
    let a = [1u8, 2];
    let s: BiSlice<'_, u8> = BiSlice::from(&a[..]);
    assert_eq!(s.into_slices(), (&a[..], &[][..]));
    let t: BiSlice<'_, u8> = (&a[..],).into();
    assert_eq!(t.into_slices(), (&a[..], &[][..]));
    let u: BiSlice<'_, u8> = [&a[..]].into();
    assert_eq!(u.into_slices(), (&a[..], &[][..]));
}

#[test]
fn from_pair_and_back() {
    let a = [1u8];
    let b = [2u8, 3];
    let s: BiSlice<'_, u8> = (&a[..], &b[..]).into();
    let pair: (&[u8], &[u8]) = s.into();
    assert_eq!(pair, (&a[..], &b[..]));
    let s2: BiSlice<'_, u8> = [&a[..], &b[..]].into();
    let arr: [&[u8]; 2] = s2.into();
    assert_eq!(arr, [&a[..], &b[..]]);
}

#[test]
fn from_mut_slices_to_shared() {
    let mut a = [1u8];
    let mut b = [2u8];
    let s: BiSlice<'_, u8> = BiSlice::from(&mut a[..]);
    assert_eq!(s.len(), 1);
    let t: BiSlice<'_, u8> = (&mut b[..],).into();
    assert_eq!(t.len(), 1);
    let mut c = [3u8];
    let d = [4u8];
    let u: BiSlice<'_, u8> = (&mut c[..], &d[..]).into();
    assert_eq!(u.into_slices(), (&[3u8][..], &[4u8][..]));
    let mut e = [5u8];
    let v: BiSlice<'_, u8> = (&d[..], &mut e[..]).into();
    assert_eq!(v.into_slices(), (&[4u8][..], &[5u8][..]));
    let mut f = [6u8];
    let mut g = [7u8];
    let w: BiSlice<'_, u8> = (&mut f[..], &mut g[..]).into();
    assert_eq!(w.into_slices(), (&[6u8][..], &[7u8][..]));
}

#[test]
fn from_bislice_mut_to_shared() {
    let mut a = [1u8];
    let mut b = [2u8];
    let m = BiSliceMut::new(&mut a, &mut b);
    let s: BiSlice<'_, u8> = m.into();
    assert_eq!(s.into_slices(), (&[1u8][..], &[2u8][..]));
}

#[test]
fn into_bislice_mut_and_back() {
    let mut a = [1u8, 2];
    let mut b = [3u8];
    {
        let m: BiSliceMut<'_, u8> = (&mut a[..], &mut b[..]).into();
        let (x, y): (&mut [u8], &mut [u8]) = m.into();
        x[0] = 10;
        y[0] = 30;
    }
    assert_eq!(a, [10, 2]);
    assert_eq!(b, [30]);
    {
        let m: BiSliceMut<'_, u8> = BiSliceMut::from(&mut a[..]);
        let [x, y]: [&mut [u8]; 2] = m.into();
        x[1] = 20;
        assert!(y.is_empty());
    }
    assert_eq!(a, [10, 20]);
    {
        let m: BiSliceMut<'_, u8> = (&mut b[..],).into();
        let (x, y): (&mut [u8], &[u8]) = m.into();
        x[0] = 31;
        assert!(y.is_empty());
    }
    assert_eq!(b, [31]);
}

#[test]
fn bislice_mut_into_shared_pairs() {
    let mut a = [1u8];
    let mut b = [2u8];
    let m = BiSliceMut::new(&mut a, &mut b);
    let (x, y): (&[u8], &mut [u8]) = m.into();
    y[0] = 5;
    assert_eq!(x, &[1u8][..]);
    let m2 = BiSliceMut::new(&mut a, &mut b);
    let (p, q): (&[u8], &[u8]) = m2.into();
    assert_eq!((p, q), (&[1u8][..], &[5u8][..]));
    let m3 = BiSliceMut::new(&mut a, &mut b);
    let arr: [&[u8]; 2] = m3.into();
    assert_eq!(arr, [&[1u8][..], &[5u8][..]]);
}

#[test]
fn from_arrays_of_mut_slices() {
    let mut a = [1u8, 2];
    let mut b = [3u8];
    let s: BiSlice<'_, u8> = [&mut a[..]].into();
    assert_eq!(s.into_slices(), (&[1u8, 2][..], &[][..]));
    let mut c = [4u8];
    let t: BiSlice<'_, u8> = [&mut b[..], &mut c[..]].into();
    assert_eq!(t.into_slices(), (&[3u8][..], &[4u8][..]));
}

#[test]
fn bislice_mut_from_arrays() {
    let mut a = [1u8, 2];
    let mut b = [3u8];
    {
        let m: BiSliceMut<'_, u8> = [&mut a[..], &mut b[..]].into();
        *m.get_mut(2).unwrap() = 30;
    }
    assert_eq!(b, [30]);
    {
        let m: BiSliceMut<'_, u8> = [&mut a[..]].into();
        *m.get_mut(1).unwrap() = 20;
    }
    assert_eq!(a, [1, 20]);
}
