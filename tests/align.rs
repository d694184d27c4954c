use safe_transmute::{
    check_alignment, check_alignment_one, check_alignment_ptr, transmute_to_bytes,
    transmute_to_bytes_vec, Aligned, Guard, UnalignedError,
};

/// The first index from which `buf` starts at a multiple of `align`.
fn aligned_start(buf: &[u8], align: usize) -> usize {
    (0..align).find(|&s| (buf[s..].as_ptr() as usize) % align == 0).unwrap()
}

/// A buffer holding `bytes` from an index aligned to `align`, and that index.
fn placed(bytes: &[u8], align: usize) -> (Vec<u8>, usize) {
    let mut storage: Vec<u8> = vec![0; bytes.len() + align];
    let s = aligned_start(&storage, align);
    storage[s..s + bytes.len()].copy_from_slice(bytes);
    (storage, s)
}

#[test]
fn test_check_aligned() {
    let data: Vec<u32> = vec![1, 2, 3];
    let mut x: Aligned<_, u32> = Aligned::check_vec(data).unwrap();
    check_alignment::<_, u32>(x.as_slice()).unwrap();

    let words = x.as_mut_slice();
    words[2] = 5;
    let bytes: Vec<u8> = transmute_to_bytes_vec(x.into_inner());
    assert_eq!(bytes, vec![1, 0, 0, 0, 2, 0, 0, 0, 5, 0, 0, 0]);
}

#[test]
fn test_check_unaligned() {
    let data: &[u32] = &[1, 2, 3];
    let (storage, s) = placed(&transmute_to_bytes(data), 4);
    let bytes: &[u8] = &storage[s..s + 12];
    assert_eq!(
        Aligned::<_, u32>::check_slice(&bytes[1..]),
        Err(UnalignedError { offset: 3 })
    );
}

#[test]
fn discard_count_then_aligned() {
    // misaligned by 1 for 4-byte elements: discard 3
    assert_eq!(check_alignment_ptr(0x1001, 4, 4), Err(UnalignedError { offset: 3 }));
    assert_eq!(check_alignment_ptr(0x1001 + 3, 4, 4), Ok(()));
    // alignment 4, element size 8: misaligned by 2, discard 6
    assert_eq!(check_alignment_ptr(0x2002, 4, 8), Err(UnalignedError { offset: 6 }));
    assert_eq!(check_alignment_ptr(0x2002 + 6, 4, 8), Ok(()));
    assert_eq!(check_alignment_ptr(0x2000, 8, 8), Ok(()));
}

#[test]
fn aligned_wrapper_reads_elements() {
    let data: &[u16] = &[0x0100, 0x0200, 0x0300];
    let bytes: Vec<u8> = transmute_to_bytes(data);
    let (storage, s) = placed(&bytes, 2);
    let whole: &[u8] = &storage[s..s + 6];
    let wrapped = Aligned::<_, u16>::check_slice(whole).unwrap();
    assert_eq!(wrapped.safe_transmute_many_permissive(), vec![0x0100u16, 0x0200, 0x0300]);
    assert_eq!(wrapped.safe_transmute_many(Guard::Pedantic), Ok(vec![0x0100u16, 0x0200, 0x0300]));
    let owned = Aligned::<Vec<u8>, u16>::check_slice_unchecked(bytes.clone());
    assert_eq!(owned.safe_transmute_vec(Guard::AllOrNothing), Ok(vec![0x0100u16, 0x0200, 0x0300]));
    let owned = Aligned::<Vec<u8>, u16>::check_slice_unchecked(bytes);
    assert_eq!(owned.safe_transmute_vec_permissive(), vec![0x0100u16, 0x0200, 0x0300]);
}

#[test]
fn aligned_vec_of_wider_elements() {
    let words: Vec<u32> = vec![7, 8];
    let wrapped = Aligned::<_, u16>::check_vec(words).unwrap();
    assert_eq!(wrapped.as_slice(), &[7u32, 8]);
}

#[test]
fn aligned_one_value() {
    let value: u64 = 7;
    let wrapped = Aligned::<_, u32>::check_one(&value).unwrap();
    assert_eq!(**wrapped.inner(), 7);
}

#[test]
fn alignment_of_real_buffers() {
    let words: Vec<u64> = vec![1, 2];
    assert_eq!(check_alignment::<u64, u32>(&words), Ok(()));
    assert_eq!(check_alignment_one::<u64, u64>(&words[0]), Ok(()));
    let (storage, s) = placed(&transmute_to_bytes(&words), 8);
    let bytes: &[u8] = &storage[s..s + 16];
    assert_eq!(check_alignment::<u8, u64>(bytes), Ok(()));
    assert_eq!(check_alignment::<u8, u64>(&bytes[2..]), Err(UnalignedError { offset: 6 }));
}
