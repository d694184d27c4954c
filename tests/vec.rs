use safe_transmute::{
    guarded_transmute_to_bytes_pod_vec, transmute_to_bytes_vec, transmute_vec,
    transmute_vec_permissive, Error, ErrorReason, Guard, GuardError,
};

#[test]
fn pod_vec_too_short() {
    assert_eq!(
        transmute_vec::<u16>(vec![], Guard::SingleMany),
        Err(Error::Guard(GuardError { required: 16 / 8, actual: 0, reason: ErrorReason::NotEnoughBytes }))
    );
    assert_eq!(
        transmute_vec::<u16>(vec![0x00], Guard::SingleMany),
        Err(Error::Guard(GuardError { required: 16 / 8, actual: 1, reason: ErrorReason::NotEnoughBytes }))
    );
}

#[test]
fn pod_vec_just_enough() {
    assert_eq!(transmute_vec::<u16>(vec![0x00, 0x01], Guard::SingleMany), Ok(vec![0x0100u16]));
    assert_eq!(
        transmute_vec::<u16>(vec![0x00, 0x01, 0x00, 0x02], Guard::SingleMany),
        Ok(vec![0x0100u16, 0x0200u16])
    );
}

#[test]
fn pod_vec_too_much() {
    assert_eq!(transmute_vec::<u16>(vec![0x00, 0x01, 0x00], Guard::SingleMany), Ok(vec![0x0100u16]));
    assert_eq!(
        transmute_vec::<u16>(vec![0x00, 0x01, 0x00, 0x02, 0x00], Guard::SingleMany),
        Ok(vec![0x0100u16, 0x0200u16])
    );
    assert_eq!(
        transmute_vec::<u16>(vec![0x00, 0x01, 0x00, 0x02, 0x00, 0x03, 0x00], Guard::SingleMany),
        Ok(vec![0x0100u16, 0x0200u16, 0x0300u16])
    );
}

#[test]
fn pod_vec_permissive_too_short() {
    assert_eq!(transmute_vec_permissive::<u16>(vec![]), vec![]);
    assert_eq!(transmute_vec_permissive::<u16>(vec![0x00]), vec![]);
}

#[test]
fn pod_vec_permissive_just_enough() {
    assert_eq!(transmute_vec_permissive::<u16>(vec![0x00, 0x01]), vec![0x0100u16]);
    assert_eq!(
        transmute_vec_permissive::<u16>(vec![0x00, 0x01, 0x00, 0x02]),
        vec![0x0100u16, 0x0200u16]
    );
}

#[test]
fn pod_vec_permissive_too_much() {
    assert_eq!(transmute_vec_permissive::<u16>(vec![0x00, 0x01, 0x00]), vec![0x0100u16]);
    assert_eq!(
        transmute_vec_permissive::<u16>(vec![0x00, 0x01, 0x00, 0x02, 0x00]),
        vec![0x0100u16, 0x0200u16]
    );
    assert_eq!(
        transmute_vec_permissive::<u16>(vec![0x00, 0x01, 0x00, 0x02, 0x00, 0x03, 0x00]),
        vec![0x0100u16, 0x0200u16, 0x0300u16]
    );
    assert_eq!(transmute_vec_permissive::<u32>(vec![0x04, 0x00, 0x00, 0x00, 0xED]), vec![4u32]);
}

#[test]
fn owned_conversion_keeps_length_and_capacity() {
    let mut bytes: Vec<u8> = Vec::with_capacity(6 * 2);
    bytes.extend_from_slice(&[1, 2, 3, 4, 5, 6, 7, 8]);
    let before = bytes.clone();
    assert_eq!(bytes.capacity(), 12);

    let words = transmute_vec::<u16>(bytes, Guard::AllOrNothing).unwrap();
    assert_eq!(words.len(), 4);
    assert_eq!(words.capacity(), 6);
    assert_eq!(words, vec![0x0201u16, 0x0403, 0x0605, 0x0807]);

    let back = transmute_to_bytes_vec(words);
    assert_eq!(back.len(), 8);
    assert_eq!(back.capacity(), 12);
    assert_eq!(back, before);
}

#[test]
fn owned_conversion_refused_on_remainder() {
    assert_eq!(
        transmute_vec::<u32>(vec![1, 2, 3, 4, 5, 6], Guard::Pedantic),
        Err(Error::Guard(GuardError { required: 4, actual: 6, reason: ErrorReason::TooManyBytes }))
    );
}

#[test]
fn owned_values_to_bytes() {
    assert_eq!(transmute_to_bytes_vec(vec![0x0123u16, 0x4567u16]), vec![0x23, 0x01, 0x67, 0x45]);
    assert_eq!(guarded_transmute_to_bytes_pod_vec(vec![0xAABBCCDDu32]), vec![0xDD, 0xCC, 0xBB, 0xAA]);
    assert_eq!(transmute_to_bytes_vec::<u64>(vec![]), Vec::<u8>::new());
}
