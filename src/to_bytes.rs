//! Conversions from values of a plain-old-data type to their bytes.
use vstd::prelude::*;
use vstd::layout::size_of;
use crate::base::{spec_transmute_many, spec_transmute_one, vec_capacity};
use crate::error::Error;
use crate::guard::Guard;
use crate::pod::{encode_elems, lemma_decode_encode, lemma_encode_len, PodTransmutable};

verus! {

/// Appends to `out` the bytes of the elements of `from`, in order.
fn encode_into<T: PodTransmutable>(from: &[T], out: &mut Vec<u8>)
    ensures
        final(out)@ == old(out)@ + encode_elems(from@),
{
    let n: usize = from.len();
    let mut i: usize = 0;
    proof {
        assert(from@.take(0) =~= Seq::<T>::empty());
        assert(old(out)@ + encode_elems(from@.take(0)) =~= old(out)@);
    }
    while i < n
        invariant
            n == from@.len(),
            i <= n,
            out@ == old(out)@ + encode_elems(from@.take(i as int)),
        decreases n - i,
    {
        from[i].write_bytes(out);
        proof {
            let next = from@.take(i + 1);
            assert(next.drop_last() =~= from@.take(i as int));
            assert(out@ =~= old(out)@ + encode_elems(next));
        }
        i = i + 1;
    }
    proof {
        assert(from@.take(n as int) =~= from@);
    }
}

/// The bytes of a single value.
pub fn transmute_one_to_bytes<T: PodTransmutable>(from: &T) -> (r: Vec<u8>)
    ensures
        r@ == T::spec_to_bytes(*from),
        r@.len() == size_of::<T>(),
{
    proof {
        T::lemma_codec();
    }
    let mut out: Vec<u8> = Vec::new();
    from.write_bytes(&mut out);
    proof {
        assert(out@ =~= T::spec_to_bytes(*from));
    }
    out
}

/// The bytes of a run of values, one image after another.
pub fn transmute_to_bytes<T: PodTransmutable>(from: &[T]) -> (r: Vec<u8>)
    ensures
        r@ == encode_elems(from@),
        r@.len() == from@.len() * size_of::<T>(),
{
    proof {
        lemma_encode_len(from@);
    }
    let mut out: Vec<u8> = Vec::new();
    encode_into(from, &mut out);
    proof {
        assert(out@ =~= encode_elems(from@));
    }
    out
}

/// The bytes of a run of values; the same as [`transmute_to_bytes`], under
/// the name older callers use.
pub fn guarded_transmute_to_bytes_pod_many<T: PodTransmutable>(from: &[T]) -> (r: Vec<u8>)
    ensures
        r@ == encode_elems(from@),
        r@.len() == from@.len() * size_of::<T>(),
{
    transmute_to_bytes(from)
}

/// Turns an owned buffer of values into an owned buffer of their bytes. The
/// byte buffer is made to hold as many bytes as the old buffer's capacity
/// spans.
pub fn transmute_to_bytes_vec<T: PodTransmutable>(from: Vec<T>) -> (r: Vec<u8>)
    ensures
        r@ == encode_elems(from@),
        r@.len() == from@.len() * size_of::<T>(),
{
    proof {
        T::lemma_codec();
        lemma_encode_len(from@);
    }
    let size: usize = core::mem::size_of::<T>();
    let capacity: usize = vec_capacity(&from);
    let mut out: Vec<u8> = Vec::with_capacity(capacity * size);
    encode_into(from.as_slice(), &mut out);
    proof {
        assert(out@ =~= encode_elems(from@));
    }
    out
}

/// Turns an owned buffer of values into an owned buffer of their bytes; the
/// same as [`transmute_to_bytes_vec`], under the name older callers use.
pub fn guarded_transmute_to_bytes_pod_vec<T: PodTransmutable>(from: Vec<T>) -> (r: Vec<u8>)
    ensures
        r@ == encode_elems(from@),
        r@.len() == from@.len() * size_of::<T>(),
{
    transmute_to_bytes_vec(from)
}

/// A value written to bytes and read back, under either single-value
/// policy, is the value it was.
pub proof fn lemma_round_trip<T: PodTransmutable>(v: T)
    ensures
        spec_transmute_one::<T>(T::spec_to_bytes(v), Guard::SingleAtLeast) == Ok::<T, Error>(v),
        spec_transmute_one::<T>(T::spec_to_bytes(v), Guard::SingleValue) == Ok::<T, Error>(v),
{
    T::lemma_codec();
    let b = T::spec_to_bytes(v);
    assert(b.take(size_of::<T>() as int) =~= b);
}

/// A run of values written to bytes and read back under the whole-elements
/// policy is the run it was.
pub proof fn lemma_many_round_trip<T: PodTransmutable>(s: Seq<T>)
    requires
        s.len() * size_of::<T>() <= usize::MAX,
    ensures
        spec_transmute_many::<T>(encode_elems(s), Guard::AllOrNothing) == Ok::<Seq<T>, Error>(s),
{
    T::lemma_codec();
    lemma_encode_len(s);
    lemma_decode_encode(s);
    let b = encode_elems(s);
    let size = size_of::<T>() as int;
    vstd::arithmetic::div_mod::lemma_mod_multiples_basic(s.len() as int, size);
    assert(b.take(b.len() as int) =~= b);
}

} // verus!
