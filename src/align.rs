//! Alignment checks, and a wrapper that records that a buffer was checked
//! for a target type.
use vstd::prelude::*;
use vstd::layout::{align_of, size_of};
use core::marker::PhantomData;
use crate::base::{spec_transmute_many, transmute_many, transmute_many_permissive, transmute_vec,
    transmute_vec_permissive};
use crate::error::{Error, UnalignedError};
use crate::guard::Guard;
use crate::pod::{decode_elems, PodTransmutable};

verus! {

/// The diagnostic for a buffer starting at `addr`, for elements of `size`
/// bytes that need `align`: aligned, or the number of leading bytes to
/// discard, `size` less the misalignment.
pub open spec fn spec_alignment(addr: nat, align: nat, size: nat) -> Result<(), UnalignedError>
    recommends
        0 < align <= size,
{
    if addr % align == 0 {
        Ok(())
    } else {
        Err(UnalignedError { offset: (size - addr % align) as usize })
    }
}

/// The alignment part of a checked outcome, whatever it carries on success.
pub open spec fn alignment_of_outcome<X>(r: Result<X, UnalignedError>) -> Result<(), UnalignedError> {
    match r {
        Ok(_) => Ok(()),
        Err(e) => Err(e),
    }
}

/// Relies on `<[T]>::as_ptr`: the address where the slice's elements start,
/// which, as for every slice, empty ones included, is aligned for `T`.
#[verifier::external_body]
pub(crate) fn slice_address<T>(data: &[T]) -> (r: usize)
    ensures
        r as nat % align_of::<T>() == 0,
{
    data.as_ptr() as usize
}

/// Relies on `core::ptr::from_ref`: the address of the referenced value,
/// which, as for every reference, is aligned for `T`.
#[verifier::external_body]
fn value_address<T>(data: &T) -> (r: usize)
    ensures
        r as nat % align_of::<T>() == 0,
{
    core::ptr::from_ref(data) as usize
}

/// Checks a start address `addr` for elements of `size` bytes aligned to
/// `align`. When misaligned, the error carries how many leading bytes to
/// discard so that both the start and every following element are aligned.
pub fn check_alignment_ptr(addr: usize, align: usize, size: usize) -> (r: Result<(), UnalignedError>)
    requires
        0 < align <= size,
    ensures
        r == spec_alignment(addr as nat, align as nat, size as nat),
{
    let offset: usize = addr % align;
    if offset > 0 {
        Err(UnalignedError { offset: size - offset })
    } else {
        Ok(())
    }
}

/// Facts of a type's layout that the checks rely on: a non-zero size is a
/// positive multiple of the alignment.
fn layout_of<U>()
    requires
        size_of::<U>() > 0,
    ensures
        0 < align_of::<U>() <= size_of::<U>(),
        size_of::<U>() <= usize::MAX,
{
    vstd::layout::layout_for_type_is_valid::<U>();
    proof {
        vstd::arithmetic::div_mod::lemma_mod_is_zero(size_of::<U>(), align_of::<U>());
    }
}

/// An address aligned for `T` is aligned for any `U` whose alignment divides
/// that of `T`.
proof fn lemma_aligned_for_divisor(addr: nat, align_t: nat, align_u: nat)
    requires
        align_t > 0,
        align_u > 0,
        addr % align_t == 0,
        align_t % align_u == 0,
    ensures
        addr % align_u == 0,
{
    let q = addr / align_t;
    let p = align_t / align_u;
    vstd::arithmetic::div_mod::lemma_fundamental_div_mod(addr as int, align_t as int);
    vstd::arithmetic::div_mod::lemma_fundamental_div_mod(align_t as int, align_u as int);
    assert(addr == (p * q) * align_u) by (nonlinear_arith)
        requires
            addr == align_t * q,
            align_t == align_u * p,
    ;
    vstd::arithmetic::div_mod::lemma_mod_multiples_basic((p * q) as int, align_u as int);
}

/// Checks whether the elements of `data` start at an address suitable for
/// reading and writing values of `U`, a type that is not zero-sized.
///
/// # Errors
///
/// [`UnalignedError`] with the number of bytes to discard from the front to
/// reach such an address.
pub fn check_alignment<T, U>(data: &[T]) -> (r: Result<(), UnalignedError>)
    requires
        size_of::<U>() > 0,
    ensures
        exists|addr: usize| #[trigger] spec_alignment(addr as nat, align_of::<U>(), size_of::<U>()) == r,
        align_of::<T>() % align_of::<U>() == 0 ==> r is Ok,
{
    layout_of::<U>();
    vstd::layout::layout_for_type_is_valid::<T>();
    let addr: usize = slice_address(data);
    let r = check_alignment_ptr(addr, core::mem::align_of::<U>(), core::mem::size_of::<U>());
    proof {
        assert(spec_alignment(addr as nat, align_of::<U>(), size_of::<U>()) == r);
        if align_of::<T>() % align_of::<U>() == 0 {
            lemma_aligned_for_divisor(addr as nat, align_of::<T>(), align_of::<U>());
        }
    }
    r
}

/// Checks whether `data` lies at an address suitable for reading and writing
/// a value of `U`.
pub fn check_alignment_one<T, U>(data: &T) -> (r: Result<(), UnalignedError>)
    requires
        size_of::<U>() > 0,
    ensures
        exists|addr: usize| #[trigger] spec_alignment(addr as nat, align_of::<U>(), size_of::<U>()) == r,
        align_of::<T>() % align_of::<U>() == 0 ==> r is Ok,
{
    layout_of::<U>();
    vstd::layout::layout_for_type_is_valid::<T>();
    let addr: usize = value_address(data);
    let r = check_alignment_ptr(addr, core::mem::align_of::<U>(), core::mem::size_of::<U>());
    proof {
        assert(spec_alignment(addr as nat, align_of::<U>(), size_of::<U>()) == r);
        if align_of::<T>() % align_of::<U>() == 0 {
            lemma_aligned_for_divisor(addr as nat, align_of::<T>(), align_of::<U>());
        }
    }
    r
}

/// Misaligned by `k`, an address is set right by discarding `size - k`
/// bytes: the diagnostic says so, and the address that many bytes further on
/// checks as aligned.
pub proof fn lemma_discard_aligns(addr: nat, align: nat, size: nat)
    requires
        0 < align <= size,
        size % align == 0,
        addr % align > 0,
    ensures
        spec_alignment(addr, align, size) == Err::<(), UnalignedError>(
            UnalignedError { offset: (size - addr % align) as usize },
        ),
        spec_alignment((addr + (size - addr % align)) as nat, align, size) == Ok::<(), UnalignedError>(()),
{
    let k = addr % align;
    let q = addr / align;
    let m = size / align;
    vstd::arithmetic::div_mod::lemma_fundamental_div_mod(addr as int, align as int);
    vstd::arithmetic::div_mod::lemma_fundamental_div_mod(size as int, align as int);
    vstd::arithmetic::mul::lemma_mul_is_distributive_add(align as int, q as int, m as int);
    assert(addr + (size - k) == align * (q + m));
    vstd::arithmetic::mul::lemma_mul_is_commutative(align as int, (q + m) as int);
    vstd::arithmetic::div_mod::lemma_mod_multiples_basic((q + m) as int, align as int);
}

/// A buffer or value `T` whose start was checked to suit values of `U`.
#[derive(Debug, PartialEq, Eq)]
pub struct Aligned<T, U> {
    inner: T,
    marker: PhantomData<U>,
}

impl<T, U> Aligned<T, U> {
    /// The wrapped buffer or value.
    pub closed spec fn spec_inner(&self) -> T {
        self.inner
    }

    /// Wraps `x` without checking; the caller vouches that it starts at an
    /// address suitable for `U`.
    pub fn check_slice_unchecked(x: T) -> (r: Self)
        ensures
            r.spec_inner() == x,
    {
        Aligned { inner: x, marker: PhantomData }
    }

    /// Gives the wrapped buffer or value back.
    pub fn into_inner(self) -> (r: T)
        ensures
            r == self.spec_inner(),
    {
        self.inner
    }

    /// The wrapped buffer or value, borrowed.
    pub fn inner(&self) -> (r: &T)
        ensures
            *r == self.spec_inner(),
    {
        &self.inner
    }
}

impl<'a, V, U> Aligned<&'a [V], U> {
    /// Wraps the slice `x` once its start is found suitable for `U`.
    pub fn check_slice(x: &'a [V]) -> (r: Result<Self, UnalignedError>)
        requires
            size_of::<U>() > 0,
        ensures
            r is Ok ==> r->Ok_0.spec_inner() == x,
            exists|addr: usize| #[trigger] spec_alignment(addr as nat, align_of::<U>(), size_of::<U>())
                == alignment_of_outcome(r),
            align_of::<V>() % align_of::<U>() == 0 ==> r is Ok,
    {
        match check_alignment::<V, U>(x) {
            Ok(()) => Ok(Aligned { inner: x, marker: PhantomData }),
            Err(e) => Err(e),
        }
    }
}

impl<V, U> Aligned<Vec<V>, U> {
    /// Wraps the owned buffer `x` once its start is found suitable for `U`.
    pub fn check_vec(x: Vec<V>) -> (r: Result<Self, UnalignedError>)
        requires
            size_of::<U>() > 0,
        ensures
            r is Ok ==> r->Ok_0.spec_inner() == x,
            exists|addr: usize| #[trigger] spec_alignment(addr as nat, align_of::<U>(), size_of::<U>())
                == alignment_of_outcome(r),
            align_of::<V>() % align_of::<U>() == 0 ==> r is Ok,
    {
        match check_alignment::<V, U>(x.as_slice()) {
            Ok(()) => Ok(Aligned { inner: x, marker: PhantomData }),
            Err(e) => Err(e),
        }
    }

    /// The wrapped buffer's elements, borrowed.
    pub fn as_slice(&self) -> (r: &[V])
        ensures
            r@ == self.spec_inner()@,
    {
        self.inner.as_slice()
    }

    /// The wrapped buffer's elements, borrowed for writing. Their number and
    /// place stay as they are, so the start remains checked.
    pub fn as_mut_slice(&mut self) -> (r: &mut [V])
        ensures
            r@ == old(self).spec_inner()@,
            final(r)@ == final(self).spec_inner()@,
    {
        self.inner.as_mut_slice()
    }
}

impl<'a, V, U> Aligned<&'a V, U> {
    /// Wraps the reference `x` once the value's address is found suitable
    /// for `U`.
    pub fn check_one(x: &'a V) -> (r: Result<Self, UnalignedError>)
        requires
            size_of::<U>() > 0,
        ensures
            r is Ok ==> r->Ok_0.spec_inner() == x,
            exists|addr: usize| #[trigger] spec_alignment(addr as nat, align_of::<U>(), size_of::<U>())
                == alignment_of_outcome(r),
            align_of::<V>() % align_of::<U>() == 0 ==> r is Ok,
    {
        match check_alignment_one::<V, U>(x) {
            Ok(()) => Ok(Aligned { inner: x, marker: PhantomData }),
            Err(e) => Err(e),
        }
    }
}

impl<'a, U: PodTransmutable> Aligned<&'a [u8], U> {
    /// Reads the elements held by the bytes that `guard` lets through.
    pub fn safe_transmute_many(&self, guard: Guard) -> (r: Result<Vec<U>, Error>)
        ensures
            match r {
                Ok(v) => spec_transmute_many::<U>(self.spec_inner()@, guard) == Ok::<Seq<U>, Error>(v@),
                Err(e) => spec_transmute_many::<U>(self.spec_inner()@, guard) == Err::<Seq<U>, Error>(e),
            },
    {
        transmute_many(self.inner, guard)
    }

    /// Reads as many elements as the bytes hold whole. Never fails.
    pub fn safe_transmute_many_permissive(&self) -> (r: Vec<U>)
        ensures
            r@ == decode_elems::<U>(self.spec_inner()@),
    {
        transmute_many_permissive(self.inner)
    }
}

impl<U: PodTransmutable> Aligned<Vec<u8>, U> {
    /// Turns the owned bytes into owned elements, under `guard`.
    pub fn safe_transmute_vec(self, guard: Guard) -> (r: Result<Vec<U>, Error>)
        ensures
            match r {
                Ok(v) => spec_transmute_many::<U>(self.spec_inner()@, guard) == Ok::<Seq<U>, Error>(v@),
                Err(e) => spec_transmute_many::<U>(self.spec_inner()@, guard) == Err::<Seq<U>, Error>(e),
            },
    {
        transmute_vec(self.inner, guard)
    }

    /// Turns the owned bytes into as many owned elements as they hold whole.
    /// Never fails.
    pub fn safe_transmute_vec_permissive(self) -> (r: Vec<U>)
        ensures
            r@ == decode_elems::<U>(self.spec_inner()@),
    {
        transmute_vec_permissive(self.inner)
    }
}

} // verus!
