use safe_transmute::{check_align, from_bytes, transmute_to_bytes, Error, UnalignedError};

/// The first index from which `buf` starts at a multiple of `align`.
fn aligned_start(buf: &[u8], align: usize) -> usize {
    (0..align).find(|&s| (buf[s..].as_ptr() as usize) % align == 0).unwrap()
}

#[test]
fn util_test_check_align() {
    // this is 4-byte aligned
    let data: &[u32] = &[0x000a0005];
    let bytes: Vec<u8> = transmute_to_bytes(data);
    let mut storage: Vec<u8> = vec![0; 12];
    let s = aligned_start(&storage, 4);
    storage[s..s + 4].copy_from_slice(&bytes);

    let v: &[u8] = &storage[s..s + 4];
    check_align::<u16>(v).expect("aligned");
    assert_eq!(from_bytes::<u16>(v), Ok(5));

    let v2 = &v[1..];
    assert_eq!(check_align::<u16>(v2), Err(Error::Unaligned(UnalignedError { offset: 1 })));
    assert_eq!(from_bytes::<u16>(v2), Ok(2560));

    check_align::<u32>(v).expect("aligned");
    assert_eq!(from_bytes::<u32>(v), Ok(0x000a0005));

    let v3 = &v[1..];
    assert_eq!(check_align::<u32>(v3), Err(Error::Unaligned(UnalignedError { offset: 3 })));

    let v4 = &v[4..];
    check_align::<u32>(v4).expect("aligned");
}
