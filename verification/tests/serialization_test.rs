use cell_sdk::vesicle::Vesicle;

#[test]
fn test_vesicle_preallocation() {
    let mut v = Vesicle::with_capacity(100);
    assert_eq!(v.len(), 100);

    v.as_mut_slice()[0] = 0xFF;
    v.as_mut_slice()[99] = 0xAA;

    assert_eq!(v.as_slice()[0], 0xFF);
    assert_eq!(v.as_slice()[99], 0xAA);
}

#[test]
fn vesicle_wrap_keeps_bytes() {
    let v = Vesicle::wrap(vec![0xDE, 0xAD, 0xBE, 0xEF]);
    assert_eq!(v.as_slice(), &[0xDE, 0xAD, 0xBE, 0xEF]);
    assert_eq!(v.len(), 4);
    assert!(!v.is_empty());
}

#[test]
fn vesicle_borrowed_and_empty() {
    let data = [1u8, 2, 3];
    let b = Vesicle::Borrowed(&data);
    assert_eq!(b.as_slice(), &[1, 2, 3]);
    let e = Vesicle::Empty;
    assert!(e.is_empty());
    assert_eq!(e.len(), 0);
    let z = Vesicle::with_capacity(5);
    assert_eq!(z.as_slice(), &[0, 0, 0, 0, 0]);
}

#[test]
fn vesicle_reads_as_a_slice() {
    let v = cell_sdk::vesicle::Vesicle::wrap(vec![4u8, 5, 6]);
    let s: &[u8] = &v;
    assert_eq!(s, &[4u8, 5, 6][..]);
    assert_eq!(v[1], 5);
    assert_eq!(v.iter().count(), 3);
}
