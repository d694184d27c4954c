//! Reinterpretation of byte buffers as arrays of plain-old-data values and back,
//! guarded by explicit length policies and alignment checks.
//!
//! Every conversion is stated over a byte model: a value of a
//! [`PodTransmutable`] type has a fixed byte image, and a buffer of bytes is
//! read as consecutive images of its elements.

pub mod align;
pub mod base;
pub mod error;
pub mod guard;
pub mod pod;
pub mod to_bytes;
pub mod util;

pub use align::{check_alignment, check_alignment_one, check_alignment_ptr, Aligned};
pub use base::{
    from_bytes, from_bytes_pedantic, transmute_many, transmute_many_permissive, transmute_vec,
    transmute_vec_permissive,
};
pub use error::{Error, ErrorReason, GuardError, UnalignedError};
pub use guard::Guard;
pub use pod::PodTransmutable;
pub use to_bytes::{
    guarded_transmute_to_bytes_pod_many, guarded_transmute_to_bytes_pod_vec, transmute_one_to_bytes,
    transmute_to_bytes, transmute_to_bytes_vec,
};
pub use util::{check_align, check_align_addr, designalise_f32_bits, designalise_f64_bits};
