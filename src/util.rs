//! Smaller helpers: an alignment check measured against the alignment alone,
//! and the bit-level rule that turns a signaling NaN into a quiet one.
use vstd::prelude::*;
use vstd::layout::align_of;
use crate::align::slice_address;
use crate::error::{Error, UnalignedError};

verus! {

/// The outcome of checking a start address `addr` against `align`: aligned,
/// or misaligned with the number of bytes that would have to be inserted in
/// front to reach the next aligned address.
pub open spec fn spec_check_align(addr: nat, align: nat) -> Result<(), Error>
    recommends
        align > 0,
{
    if addr % align == 0 {
        Ok(())
    } else {
        Err(Error::Unaligned(UnalignedError { offset: (align - addr % align) as usize }))
    }
}

/// Checks a start address `addr` against `align`.
pub fn check_align_addr(addr: usize, align: usize) -> (r: Result<(), Error>)
    requires
        align > 0,
    ensures
        r == spec_check_align(addr as nat, align as nat),
{
    let rem: usize = addr % align;
    if rem != 0 {
        return Err(Error::Unaligned(UnalignedError { offset: align - rem }));
    }
    Ok(())
}

/// Checks whether the slice starts at an address suitable for reading a `T`.
pub fn check_align<T>(v: &[u8]) -> (r: Result<(), Error>)
    ensures
        exists|addr: usize| #[trigger] spec_check_align(addr as nat, align_of::<T>()) == r,
{
    vstd::layout::layout_for_type_is_valid::<T>();
    let addr: usize = slice_address(v);
    let r = check_align_addr(addr, core::mem::align_of::<T>());
    proof {
        assert(spec_check_align(addr as nat, align_of::<T>()) == r);
    }
    r
}

/// Exponent bits of a single-precision float.
pub const F32_EXP_MASK: u32 = 0x7F80_0000;
/// The fraction bit that marks a single-precision NaN as quiet.
pub const F32_QNAN_MASK: u32 = 0x0040_0000;
/// Fraction bits of a single-precision float.
pub const F32_FRACT_MASK: u32 = 0x007F_FFFF;
/// Exponent bits of a double-precision float.
pub const F64_EXP_MASK: u64 = 0x7FF0_0000_0000_0000;
/// The fraction bit that marks a double-precision NaN as quiet.
pub const F64_QNAN_MASK: u64 = 0x0008_0000_0000_0000;
/// Fraction bits of a double-precision float.
pub const F64_FRACT_MASK: u64 = 0x000F_FFFF_FFFF_FFFF;

/// Whether the single-precision bit pattern `bits` is a NaN: all exponent
/// bits set and a non-zero fraction.
pub open spec fn is_nan_bits_f32(bits: u32) -> bool {
    bits & F32_EXP_MASK == F32_EXP_MASK && bits & F32_FRACT_MASK != 0
}

/// Whether the double-precision bit pattern `bits` is a NaN.
pub open spec fn is_nan_bits_f64(bits: u64) -> bool {
    bits & F64_EXP_MASK == F64_EXP_MASK && bits & F64_FRACT_MASK != 0
}

/// The bit pattern of a single-precision float with a NaN made quiet; any
/// other pattern is kept as it is.
pub fn designalise_f32_bits(bits: u32) -> (r: u32)
    ensures
        is_nan_bits_f32(bits) ==> r == bits | F32_QNAN_MASK,
        !is_nan_bits_f32(bits) ==> r == bits,
{
    if bits & F32_EXP_MASK == F32_EXP_MASK && bits & F32_FRACT_MASK != 0 {
        bits | F32_QNAN_MASK
    } else {
        bits
    }
}

/// The bit pattern of a double-precision float with a NaN made quiet; any
/// other pattern is kept as it is.
pub fn designalise_f64_bits(bits: u64) -> (r: u64)
    ensures
        is_nan_bits_f64(bits) ==> r == bits | F64_QNAN_MASK,
        !is_nan_bits_f64(bits) ==> r == bits,
{
    if bits & F64_EXP_MASK == F64_EXP_MASK && bits & F64_FRACT_MASK != 0 {
        bits | F64_QNAN_MASK
    } else {
        bits
    }
}

} // verus!
