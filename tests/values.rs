use safe_transmute::{
    designalise_f32_bits, designalise_f64_bits, from_bytes, from_bytes_pedantic,
    guarded_transmute_to_bytes_pod_many, transmute_one_to_bytes, transmute_to_bytes, Error,
    ErrorReason, Guard, GuardError,
};

#[test]
fn one_value_to_bytes() {
    assert_eq!(transmute_one_to_bytes(&0x0123_4567u32), vec![0x67, 0x45, 0x23, 0x01]);
    assert_eq!(transmute_one_to_bytes(&0xABu8), vec![0xAB]);
    assert_eq!(
        transmute_one_to_bytes(&0x0102_0304_0506_0708u64),
        vec![0x08, 0x07, 0x06, 0x05, 0x04, 0x03, 0x02, 0x01]
    );
}

#[test]
fn many_values_to_bytes() {
    assert_eq!(transmute_to_bytes(&[0x0123u16, 0x4567u16]), vec![0x23, 0x01, 0x67, 0x45]);
    assert_eq!(guarded_transmute_to_bytes_pod_many(&[0x0123u16]), vec![0x23, 0x01]);
    assert_eq!(transmute_to_bytes::<u32>(&[]), Vec::<u8>::new());
}

#[test]
fn value_round_trip() {
    for v in [0u32, 1, 0x0100_0000, 0xDEAD_BEEF, u32::MAX] {
        let bytes = transmute_one_to_bytes(&v);
        assert_eq!(from_bytes::<u32>(&bytes), Ok(v));
        assert_eq!(from_bytes_pedantic::<u32>(&bytes), Ok(v));
    }
    let v: u64 = 0x8000_0000_0000_0001;
    assert_eq!(from_bytes_pedantic::<u64>(&transmute_one_to_bytes(&v)), Ok(v));
}

#[test]
fn single_value_at_least() {
    assert_eq!(from_bytes::<u32>(&[0x00, 0x00, 0x00, 0x01]), Ok(0x0100_0000));
    assert_eq!(from_bytes::<u32>(&[0x01, 0x00, 0x00, 0x00, 0xFF, 0xFF]), Ok(1));
    assert_eq!(
        from_bytes::<u32>(&[0x01, 0x00, 0x00]),
        Err(Error::Guard(GuardError { required: 4, actual: 3, reason: ErrorReason::NotEnoughBytes }))
    );
}

#[test]
fn single_value_exact() {
    assert_eq!(from_bytes_pedantic::<u32>(&[0x00, 0x00, 0x00, 0x01]), Ok(0x0100_0000));
    assert_eq!(
        from_bytes_pedantic::<u32>(&[0x00, 0x00, 0x01]),
        Err(Error::Guard(GuardError { required: 4, actual: 3, reason: ErrorReason::NotEnoughBytes }))
    );
    assert_eq!(
        from_bytes_pedantic::<u32>(&[0x00, 0x00, 0x00, 0x01, 0x00]),
        Err(Error::Guard(GuardError { required: 4, actual: 5, reason: ErrorReason::TooManyBytes }))
    );
}

#[test]
fn guard_decisions() {
    assert_eq!(Guard::SingleValue.check(1, 2), Err(GuardError { required: 2, actual: 1, reason: ErrorReason::NotEnoughBytes }));
    assert_eq!(Guard::SingleValue.check(3, 2), Err(GuardError { required: 2, actual: 3, reason: ErrorReason::TooManyBytes }));
    assert_eq!(Guard::SingleValue.check(2, 2), Ok(2));
    assert_eq!(Guard::SingleAtLeast.check(7, 2), Ok(2));
    assert_eq!(Guard::SingleMany.check(7, 2), Ok(6));
    assert_eq!(Guard::Permissive.check(7, 2), Ok(6));
    assert_eq!(Guard::Permissive.check(0, 2), Ok(0));
    assert_eq!(Guard::Pedantic.check(8, 2), Ok(8));
    assert_eq!(Guard::AllOrNothing.check(0, 2), Ok(0));
    assert_eq!(Guard::AllOrNothing.check(9, 4), Err(GuardError { required: 8, actual: 9, reason: ErrorReason::TooManyBytes }));
    assert_eq!(Guard::Permissive.check(5, 0), Err(GuardError { required: 0, actual: 5, reason: ErrorReason::NotEnoughBytes }));
}

#[test]
fn nan_bits_made_quiet() {
    // a signaling NaN gains the quiet bit
    assert_eq!(designalise_f32_bits(0x7F80_0001), 0x7FC0_0001);
    // infinity and ordinary numbers are kept
    assert_eq!(designalise_f32_bits(0x7F80_0000), 0x7F80_0000);
    assert_eq!(designalise_f32_bits(0x3F80_0000), 0x3F80_0000);
    assert_eq!(designalise_f64_bits(0x7FF0_0000_0000_0001), 0x7FF8_0000_0000_0001);
    assert_eq!(designalise_f64_bits(0x7FF0_0000_0000_0000), 0x7FF0_0000_0000_0000);
    assert_eq!(designalise_f64_bits(0x4000_0000_0000_0000), 0x4000_0000_0000_0000);
}

#[test]
fn invalid_value_is_a_distinct_error() {
    assert_ne!(Error::InvalidValue, Error::Guard(GuardError { required: 1, actual: 0, reason: ErrorReason::NotEnoughBytes }));
}

#[test]
fn signed_values() {
    assert_eq!(transmute_one_to_bytes(&-2i16), vec![0xFE, 0xFF]);
    assert_eq!(from_bytes::<i16>(&[0xFE, 0xFF]), Ok(-2));
    assert_eq!(from_bytes::<i8>(&[0x80]), Ok(i8::MIN));
    assert_eq!(from_bytes_pedantic::<i32>(&[0xFF, 0xFF, 0xFF, 0x7F]), Ok(i32::MAX));
    for v in [i64::MIN, -1, 0, 1, i64::MAX] {
        assert_eq!(from_bytes_pedantic::<i64>(&transmute_one_to_bytes(&v)), Ok(v));
    }
    assert_eq!(transmute_to_bytes(&[-1i32, 1]), vec![0xFF, 0xFF, 0xFF, 0xFF, 0x01, 0x00, 0x00, 0x00]);
}
