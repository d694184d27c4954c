//! Conversions from bytes to values of a plain-old-data type, under a length
//! policy.
//!
//! The bytes are read as consecutive images of elements (see
//! [`PodTransmutable`]); how many bytes are used, or whether the conversion is
//! refused, is the guard's decision.
use vstd::prelude::*;
use vstd::layout::size_of;
use crate::error::Error;
use crate::guard::Guard;
use crate::pod::{decode_elems, encode_elems, lemma_encode_decode, PodTransmutable};

verus! {

/// Outcome of a guarded conversion of `b` into a run of elements: the
/// elements held by the bytes the guard lets through, or its refusal.
pub open spec fn spec_transmute_many<T: PodTransmutable>(b: Seq<u8>, guard: Guard) -> Result<
    Seq<T>,
    Error,
> {
    match guard.spec_check(b.len() as usize, size_of::<T>() as usize) {
        Ok(used) => Ok(decode_elems::<T>(b.take(used as int))),
        Err(e) => Err(Error::Guard(e)),
    }
}

/// Outcome of a guarded conversion of `b` into a single value: the value
/// whose image leads `b`, or the guard's refusal.
pub open spec fn spec_transmute_one<T: PodTransmutable>(b: Seq<u8>, guard: Guard) -> Result<
    T,
    Error,
> {
    match guard.spec_check(b.len() as usize, size_of::<T>() as usize) {
        Ok(_) => Ok(T::spec_from_bytes(b.take(size_of::<T>() as int))),
        Err(e) => Err(Error::Guard(e)),
    }
}

/// Relies on `Vec::capacity`: a vector can hold at least as many elements as
/// it has, and never spans more than `isize::MAX` bytes.
#[verifier::external_body]
pub(crate) fn vec_capacity<T>(v: &Vec<T>) -> (r: usize)
    ensures
        v@.len() <= r,
        r * size_of::<T>() <= isize::MAX,
{
    v.capacity()
}

/// Appends to `out` the first `n` elements held by `bytes`.
pub(crate) fn decode_prefix<T: PodTransmutable>(bytes: &[u8], n: usize, out: &mut Vec<T>)
    requires
        n * size_of::<T>() <= bytes@.len(),
    ensures
        final(out)@ == old(out)@ + decode_elems::<T>(bytes@.take((n * size_of::<T>()) as int)),
{
    proof {
        T::lemma_codec();
    }
    let size: usize = core::mem::size_of::<T>();
    let ghost used = bytes@.take((n * size) as int);
    let ghost start = old(out)@;
    proof {
        vstd::arithmetic::div_mod::lemma_div_multiples_vanish(n as int, size as int);
        assert(n * size == size * n) by (nonlinear_arith);
    }
    let len: usize = bytes.len();
    let mut i: usize = 0;
    while i < n
        invariant
            len == bytes@.len(),
            size == size_of::<T>(),
            size > 0,
            i <= n,
            n * size <= bytes@.len(),
            used == bytes@.take((n * size) as int),
            decode_elems::<T>(used).len() == n,
            out@.len() == start.len() + i,
            forall|j: int| 0 <= j < start.len() ==> out@[j] == start[j],
            forall|j: int|
                0 <= j < i ==> #[trigger] out@[start.len() + j] == T::spec_from_bytes(
                    bytes@.subrange(j * size, j * size + size),
                ),
        decreases n - i,
    {
        proof {
            assert(i * size + size <= n * size) by (nonlinear_arith)
                requires
                    i + 1 <= n,
                    size >= 0,
            ;
            assert(i * size + size == (i + 1) * size) by (nonlinear_arith);
        }
        let lo: usize = i * size;
        let chunk = vstd::slice::slice_subrange(bytes, lo, lo + size);
        let v = T::read_bytes(chunk);
        out.push(v);
        i = i + 1;
    }
    proof {
        assert forall|j: int| 0 <= j < n implies #[trigger] decode_elems::<T>(used)[j]
            == T::spec_from_bytes(bytes@.subrange(j * size, j * size + size)) by {
            assert(j * size + size <= n * size) by (nonlinear_arith)
                requires
                    j + 1 <= n,
                    size >= 0,
            ;
            assert(j * size >= 0) by (nonlinear_arith)
                requires
                    j >= 0,
                    size >= 0,
            ;
            assert(used.subrange(j * size, j * size + size) =~= bytes@.subrange(
                j * size,
                j * size + size,
            ));
        }
        let whole = start + decode_elems::<T>(used);
        assert forall|k: int| 0 <= k < whole.len() implies #[trigger] out@[k] == whole[k] by {
            if k >= start.len() {
                let j = k - start.len();
                assert(out@[start.len() + j] == T::spec_from_bytes(
                    bytes@.subrange(j * size, j * size + size),
                ));
            }
        }
        assert(out@ =~= whole);
    }
}

/// Reads one value from the leading bytes of `bytes`; bytes past the first
/// value are ignored.
///
/// Fails when `bytes` is shorter than one value.
pub fn from_bytes<T: PodTransmutable>(bytes: &[u8]) -> (r: Result<T, Error>)
    ensures
        r == spec_transmute_one::<T>(bytes@, Guard::SingleAtLeast),
        r is Ok <==> bytes@.len() >= size_of::<T>(),
{
    proof {
        T::lemma_codec();
    }
    transmute_single(bytes, Guard::SingleAtLeast)
}

/// Reads one value from `bytes`, which must hold exactly one value.
///
/// Fails when `bytes` is shorter or longer than one value.
pub fn from_bytes_pedantic<T: PodTransmutable>(bytes: &[u8]) -> (r: Result<T, Error>)
    ensures
        r == spec_transmute_one::<T>(bytes@, Guard::SingleValue),
        r is Ok <==> bytes@.len() == size_of::<T>(),
{
    proof {
        T::lemma_codec();
    }
    transmute_single(bytes, Guard::SingleValue)
}

/// Reads one value from the leading bytes of `bytes` once one of the
/// single-value guards accepts their count.
fn transmute_single<T: PodTransmutable>(bytes: &[u8], guard: Guard) -> (r: Result<T, Error>)
    requires
        guard == Guard::SingleAtLeast || guard == Guard::SingleValue,
    ensures
        r == spec_transmute_one::<T>(bytes@, guard),
        bytes@.len() <= usize::MAX,
{
    proof {
        T::lemma_codec();
    }
    let size: usize = core::mem::size_of::<T>();
    match guard.check(bytes.len(), size) {
        Ok(_) => {
            let chunk = vstd::slice::slice_subrange(bytes, 0, size);
            proof {
                assert(chunk@ =~= bytes@.take(size as int));
            }
            Ok(T::read_bytes(chunk))
        },
        Err(e) => Err(Error::Guard(e)),
    }
}

/// Reads the elements held by the bytes that `guard` lets through.
pub fn transmute_many<T: PodTransmutable>(bytes: &[u8], guard: Guard) -> (r: Result<Vec<T>, Error>)
    ensures
        match r {
            Ok(v) => spec_transmute_many::<T>(bytes@, guard) == Ok::<Seq<T>, Error>(v@),
            Err(e) => spec_transmute_many::<T>(bytes@, guard) == Err::<Seq<T>, Error>(e),
        },
{
    proof {
        T::lemma_codec();
    }
    let size: usize = core::mem::size_of::<T>();
    match guard.check(bytes.len(), size) {
        Ok(used) => {
            let mut out: Vec<T> = Vec::new();
            decode_whole(bytes, used, &mut out, guard);
            Ok(out)
        },
        Err(e) => Err(Error::Guard(e)),
    }
}

/// Appends to `out` the elements held by the first `used` bytes of `bytes`,
/// a count that `guard` accepted.
fn decode_whole<T: PodTransmutable>(bytes: &[u8], used: usize, out: &mut Vec<T>, guard: Guard)
    requires
        guard.spec_check(bytes@.len() as usize, size_of::<T>() as usize) == Ok::<
            usize,
            crate::error::GuardError,
        >(used),
    ensures
        final(out)@ == old(out)@ + decode_elems::<T>(bytes@.take(used as int)),
{
    proof {
        T::lemma_codec();
    }
    let size: usize = core::mem::size_of::<T>();
    proof {
        guard.lemma_accepted_fits(bytes.len(), size);
        vstd::arithmetic::div_mod::lemma_fundamental_div_mod(used as int, size as int);
        vstd::arithmetic::mul::lemma_mul_is_commutative(used as int / size as int, size as int);
    }
    let n: usize = used / size;
    decode_prefix(bytes, n, out);
    proof {
        assert(n * size == used);
    }
}

/// Reads as many elements as `bytes` holds whole; a trailing remainder
/// shorter than one element is dropped. Never fails.
pub fn transmute_many_permissive<T: PodTransmutable>(bytes: &[u8]) -> (r: Vec<T>)
    ensures
        spec_transmute_many::<T>(bytes@, Guard::Permissive) == Ok::<Seq<T>, Error>(r@),
        r@ == decode_elems::<T>(bytes@),
        r@.len() == bytes@.len() / size_of::<T>(),
{
    proof {
        T::lemma_codec();
    }
    let size: usize = core::mem::size_of::<T>();
    let n: usize = bytes.len() / size;
    let mut out: Vec<T> = Vec::new();
    proof {
        lemma_whole_elems::<T>(bytes@);
    }
    decode_prefix(bytes, n, &mut out);
    proof {
        assert(out@ =~= decode_elems::<T>(bytes@));
    }
    out
}

/// Reading the whole elements of `b` is reading its first `L / S` elements,
/// and it is what the permissive guard lets through.
proof fn lemma_whole_elems<T: PodTransmutable>(b: Seq<u8>)
    requires
        b.len() <= usize::MAX,
    ensures
        ((b.len() / size_of::<T>()) * size_of::<T>()) <= b.len(),
        decode_elems::<T>(b.take(((b.len() / size_of::<T>()) * size_of::<T>()) as int))
            == decode_elems::<T>(b),
        spec_transmute_many::<T>(b, Guard::Permissive) == Ok::<Seq<T>, Error>(
            decode_elems::<T>(b),
        ),
{
    T::lemma_codec();
    let size = size_of::<T>() as usize;
    lemma_permissive_many::<T>(b);
    crate::guard::lemma_whole_bytes(b.len() as usize, size);
}

/// The permissive guard accepts any byte count, and reading what it lets
/// through gives the same elements as reading the whole buffer.
pub proof fn lemma_permissive_many<T: PodTransmutable>(b: Seq<u8>)
    requires
        b.len() <= usize::MAX,
    ensures
        spec_transmute_many::<T>(b, Guard::Permissive) == Ok::<Seq<T>, Error>(
            decode_elems::<T>(b),
        ),
{
    T::lemma_codec();
    let size = size_of::<T>() as usize;
    let used = crate::guard::whole_bytes(b.len() as usize, size);
    crate::guard::lemma_whole_bytes(b.len() as usize, size);
    let t = b.take(used as int);
    assert(t.len() as int / (size as int) == b.len() as int / (size as int)) by {
        vstd::arithmetic::div_mod::lemma_div_multiples_vanish(b.len() as int / size as int, size as int);
        vstd::arithmetic::mul::lemma_mul_is_commutative(b.len() as int / size as int, size as int);
    }
    let n = b.len() as int / (size as int);
    assert forall|i: int| 0 <= i < n implies #[trigger] decode_elems::<T>(t)[i] == decode_elems::<
        T,
    >(b)[i] by {
        assert(i * size + size <= n * size) by (nonlinear_arith)
            requires
                i + 1 <= n,
                size >= 0,
        ;
        assert(i * size >= 0) by (nonlinear_arith)
            requires
                i >= 0,
                size >= 0,
        ;
        assert(t.subrange(i * size, i * size + size) =~= b.subrange(i * size, i * size + size));
    }
    assert(decode_elems::<T>(t) =~= decode_elems::<T>(b));
}

/// Turns an owned byte buffer into an owned buffer of the elements held by
/// the bytes that `guard` lets through. The new buffer is made to hold as
/// many elements as the old one's capacity in bytes holds whole. The byte
/// buffer is consumed whatever the outcome.
pub fn transmute_vec<T: PodTransmutable>(bytes: Vec<u8>, guard: Guard) -> (r: Result<Vec<T>, Error>)
    ensures
        match r {
            Ok(v) => spec_transmute_many::<T>(bytes@, guard) == Ok::<Seq<T>, Error>(v@),
            Err(e) => spec_transmute_many::<T>(bytes@, guard) == Err::<Seq<T>, Error>(e),
        },
{
    proof {
        T::lemma_codec();
    }
    let size: usize = core::mem::size_of::<T>();
    match guard.check(bytes.len(), size) {
        Ok(used) => {
            let capacity: usize = vec_capacity(&bytes) / size;
            let mut out: Vec<T> = Vec::with_capacity(capacity);
            decode_whole(bytes.as_slice(), used, &mut out, guard);
            Ok(out)
        },
        Err(e) => Err(Error::Guard(e)),
    }
}

/// Turns an owned byte buffer into an owned buffer of as many elements as it
/// holds whole; a trailing remainder is dropped. Never fails.
pub fn transmute_vec_permissive<T: PodTransmutable>(bytes: Vec<u8>) -> (r: Vec<T>)
    ensures
        spec_transmute_many::<T>(bytes@, Guard::Permissive) == Ok::<Seq<T>, Error>(r@),
        r@ == decode_elems::<T>(bytes@),
        r@.len() == bytes@.len() / size_of::<T>(),
{
    proof {
        T::lemma_codec();
    }
    let size: usize = core::mem::size_of::<T>();
    let n: usize = bytes.len() / size;
    let capacity: usize = vec_capacity(&bytes) / size;
    let mut out: Vec<T> = Vec::with_capacity(capacity);
    proof {
        lemma_whole_elems::<T>(bytes@);
    }
    decode_prefix(bytes.as_slice(), n, &mut out);
    proof {
        assert(out@ =~= decode_elems::<T>(bytes@));
    }
    out
}

/// The permissive conversion of `L` bytes into elements of `S` bytes gives
/// `L / S` elements whose bytes are exactly the first `(L / S) * S` bytes of
/// the input; the trailing remainder plays no part.
pub proof fn lemma_permissive_truncation<T: PodTransmutable>(b: Seq<u8>)
    requires
        b.len() <= usize::MAX,
    ensures
        spec_transmute_many::<T>(b, Guard::Permissive) is Ok,
        spec_transmute_many::<T>(b, Guard::Permissive)->Ok_0.len() == b.len() / size_of::<T>(),
        encode_elems(spec_transmute_many::<T>(b, Guard::Permissive)->Ok_0) == b.take(
            ((b.len() / size_of::<T>()) * size_of::<T>()) as int,
        ),
{
    lemma_permissive_many::<T>(b);
    lemma_encode_decode::<T>(b);
}

/// Converting a buffer of whole elements that `guard` takes entirely, and
/// writing the elements back out, gives the same bytes, and one element for
/// each `S` of them.
pub proof fn lemma_owned_round_trip<T: PodTransmutable>(b: Seq<u8>, guard: Guard)
    requires
        b.len() <= usize::MAX,
        guard.spec_check(b.len() as usize, size_of::<T>() as usize) == Ok::<
            usize,
            crate::error::GuardError,
        >(b.len() as usize),
    ensures
        spec_transmute_many::<T>(b, guard) is Ok,
        spec_transmute_many::<T>(b, guard)->Ok_0.len() * size_of::<T>() == b.len(),
        encode_elems(spec_transmute_many::<T>(b, guard)->Ok_0) == b,
{
    T::lemma_codec();
    let size = size_of::<T>() as usize;
    guard.lemma_accepted_fits(b.len() as usize, size);
    lemma_encode_decode::<T>(b);
    assert(b.take(b.len() as int) =~= b);
    vstd::arithmetic::div_mod::lemma_fundamental_div_mod(b.len() as int, size as int);
    vstd::arithmetic::mul::lemma_mul_is_commutative(b.len() as int / size as int, size as int);
}

} // verus!
