//! Plain-old-data element types and their byte images.
//!
//! A type that implements [`PodTransmutable`] is one whose every bit pattern
//! of its size is a valid value. Its byte image is little-endian, which is
//! its in-memory layout on little-endian machines; reading an image back
//! gives the value again, and each run of bytes of the right length is the
//! image of exactly one value.
use vstd::prelude::*;
use vstd::layout::size_of;

verus! {

broadcast use vstd::layout::layout_of_primitives;

/// `256` to the power `n`: the number of values that `n` bytes can hold.
pub open spec fn pow256(n: nat) -> nat
    decreases n,
{
    if n == 0 {
        1
    } else {
        256 * pow256((n - 1) as nat)
    }
}

/// The number that the bytes `b` stand for, least significant byte first.
pub open spec fn le_value(b: Seq<u8>) -> nat
    decreases b.len(),
{
    if b.len() == 0 {
        0
    } else {
        b[0] as nat + 256 * le_value(b.drop_first())
    }
}

/// The `n` low bytes of `v`, least significant first.
pub open spec fn le_bytes(v: nat, n: nat) -> Seq<u8>
    decreases n,
{
    if n == 0 {
        Seq::empty()
    } else {
        seq![(v % 256) as u8] + le_bytes(v / 256, (n - 1) as nat)
    }
}

proof fn lemma_pow256_positive(n: nat)
    ensures
        pow256(n) > 0,
    decreases n,
{
    if n > 0 {
        lemma_pow256_positive((n - 1) as nat);
    }
}

proof fn lemma_pow256_values()
    ensures
        pow256(1) == 0x100,
        pow256(2) == 0x1_0000,
        pow256(4) == 0x1_0000_0000,
        pow256(8) == 0x1_0000_0000_0000_0000,
{
    assert(pow256(0) == 1);
    assert(pow256(1) == 0x100);
    assert(pow256(2) == 0x1_0000);
    assert(pow256(3) == 0x100_0000);
    assert(pow256(4) == 0x1_0000_0000);
    assert(pow256(5) == 0x100_0000_0000);
    assert(pow256(6) == 0x1_0000_0000_0000);
    assert(pow256(7) == 0x100_0000_0000_0000);
    assert(pow256(8) == 0x1_0000_0000_0000_0000);
}

proof fn lemma_pow256_monotone(m: nat, n: nat)
    requires
        m <= n,
    ensures
        pow256(m) <= pow256(n),
    decreases n,
{
    if m < n {
        lemma_pow256_monotone(m, (n - 1) as nat);
        lemma_pow256_positive((n - 1) as nat);
    }
}

proof fn lemma_le_value_bound(b: Seq<u8>)
    ensures
        le_value(b) < pow256(b.len()),
    decreases b.len(),
{
    if b.len() > 0 {
        lemma_le_value_bound(b.drop_first());
    }
}

/// Writing `n` bytes of `v` and reading them back gives `v` modulo `256^n`.
proof fn lemma_le_value_of_bytes(v: nat, n: nat)
    ensures
        le_bytes(v, n).len() == n,
        le_value(le_bytes(v, n)) == v % pow256(n),
    decreases n,
{
    if n > 0 {
        let m = (n - 1) as nat;
        lemma_le_value_of_bytes(v / 256, m);
        lemma_pow256_positive(m);
        let s = le_bytes(v, n);
        assert(s.drop_first() =~= le_bytes(v / 256, m));
        vstd::arithmetic::div_mod::lemma_breakdown(v as int, 256, pow256(m) as int);
    }
}

/// Reading `b` and writing the number back in as many bytes gives `b`.
proof fn lemma_le_bytes_of_value(b: Seq<u8>)
    ensures
        le_bytes(le_value(b), b.len()) == b,
    decreases b.len(),
{
    if b.len() > 0 {
        let rest = b.drop_first();
        lemma_le_bytes_of_value(rest);
        let v = le_value(b);
        vstd::arithmetic::div_mod::lemma_fundamental_div_mod_converse(
            v as int,
            256,
            le_value(rest) as int,
            b[0] as int,
        );
        assert(le_bytes(v, b.len()) =~= b);
    }
}

/// Appending the byte image of a number to a sequence, one byte at a time.
proof fn lemma_le_bytes_snoc(v: nat, i: nat)
    ensures
        le_bytes(v, i + 1) == le_bytes(v, i).push(((v / pow256(i)) % 256) as u8),
    decreases i,
{
    if i > 0 {
        let m = (i - 1) as nat;
        lemma_le_bytes_snoc(v / 256, m);
        lemma_pow256_positive(m);
        vstd::arithmetic::div_mod::lemma_div_denominator(v as int, 256, pow256(m) as int);
        assert(le_bytes(v, i + 1) =~= le_bytes(v, i).push(((v / pow256(i)) % 256) as u8));
    } else {
        assert(pow256(0) == 1);
        assert(v / 1 == v);
        assert(le_bytes(v / 256, 0) =~= Seq::<u8>::empty());
        assert(le_bytes(v, 0) =~= Seq::<u8>::empty());
        assert(le_bytes(v, 1) =~= le_bytes(v, 0).push(((v / pow256(0)) % 256) as u8));
    }
}

/// Numbers below `256^n` survive a trip through `n` bytes.
proof fn lemma_le_codec(n: nat)
    ensures
        forall|v: nat| v < pow256(n) ==> #[trigger] le_value(le_bytes(v, n)) == v,
        forall|v: nat| #[trigger] le_bytes(v, n).len() == n,
{
    assert forall|v: nat| v < pow256(n) implies #[trigger] le_value(le_bytes(v, n)) == v by {
        lemma_le_value_of_bytes(v, n);
        vstd::arithmetic::div_mod::lemma_small_mod(v, pow256(n));
    }
    assert forall|v: nat| #[trigger] le_bytes(v, n).len() == n by {
        lemma_le_value_of_bytes(v, n);
    }
}

/// Bytes survive a trip through the number they stand for.
proof fn lemma_le_round(b: Seq<u8>)
    ensures
        le_value(b) < pow256(b.len()),
        le_bytes(le_value(b), b.len()) == b,
{
    lemma_le_value_bound(b);
    lemma_le_bytes_of_value(b);
}

/// Reads the number that the bytes `b` stand for, least significant first.
fn read_le(b: &[u8]) -> (r: u64)
    requires
        b@.len() <= 8,
    ensures
        r as nat == le_value(b@),
{
    let n: usize = b.len();
    let mut i: usize = n;
    let mut acc: u64 = 0;
    proof {
        assert(b@.subrange(n as int, n as int) =~= Seq::<u8>::empty());
        lemma_pow256_values();
    }
    while i > 0
        invariant
            n == b@.len(),
            n <= 8,
            i <= n,
            acc as nat == le_value(b@.subrange(i as int, n as int)),
            pow256(8) == 0x1_0000_0000_0000_0000,
        decreases i,
    {
        let ghost tail = b@.subrange(i as int, n as int);
        i = i - 1;
        proof {
            lemma_le_value_bound(tail);
            lemma_pow256_monotone((n - i - 1) as nat, 7);
            assert(b@.subrange(i as int, n as int).drop_first() =~= tail);
        }
        acc = acc * 256 + b[i] as u64;
    }
    proof {
        assert(b@.subrange(0, n as int) =~= b@);
    }
    acc
}

/// Appends the `n` low bytes of `v` to `out`, least significant first.
fn write_le(v: u64, n: usize, out: &mut Vec<u8>)
    requires
        n <= 8,
    ensures
        final(out)@ == old(out)@ + le_bytes(v as nat, n as nat),
{
    let mut x: u64 = v;
    let mut i: usize = 0;
    proof {
        assert(old(out)@ + le_bytes(v as nat, 0) =~= old(out)@);
        assert(pow256(0) == 1);
    }
    while i < n
        invariant
            i <= n,
            x as nat == v as nat / pow256(i as nat),
            out@ == old(out)@ + le_bytes(v as nat, i as nat),
        decreases n - i,
    {
        proof {
            lemma_le_bytes_snoc(v as nat, i as nat);
            lemma_pow256_positive(i as nat);
            vstd::arithmetic::div_mod::lemma_div_denominator(v as int, pow256(i as nat) as int, 256);
            vstd::arithmetic::mul::lemma_mul_is_commutative(pow256(i as nat) as int, 256);
        }
        out.push((x % 256) as u8);
        x = x / 256;
        i = i + 1;
        proof {
            assert(out@ =~= old(out)@ + le_bytes(v as nat, i as nat));
        }
    }
}

/// A type whose values may be read from and written as raw bytes: each bit
/// pattern of its size is a valid value, and it owns no other resource.
pub trait PodTransmutable: Sized + Copy {
    /// The byte image of `v`.
    spec fn spec_to_bytes(v: Self) -> Seq<u8>;

    /// The value whose byte image is `b`.
    spec fn spec_from_bytes(b: Seq<u8>) -> Self;

    /// Images have the type's size, and reading and writing are inverse.
    proof fn lemma_codec()
        ensures
            0 < size_of::<Self>() <= usize::MAX,
            forall|v: Self| #[trigger] Self::spec_to_bytes(v).len() == size_of::<Self>(),
            forall|v: Self| #[trigger] Self::spec_from_bytes(Self::spec_to_bytes(v)) == v,
            forall|b: Seq<u8>|
                b.len() == size_of::<Self>() ==> #[trigger] Self::spec_to_bytes(
                    Self::spec_from_bytes(b),
                ) == b,
    ;

    /// Reads the value whose image is `b`.
    fn read_bytes(b: &[u8]) -> (r: Self)
        requires
            b@.len() == size_of::<Self>(),
        ensures
            r == Self::spec_from_bytes(b@),
    ;

    /// Appends the image of `self` to `out`.
    fn write_bytes(&self, out: &mut Vec<u8>)
        ensures
            final(out)@ == old(out)@ + Self::spec_to_bytes(*self),
    ;
}

impl PodTransmutable for u8 {
    open spec fn spec_to_bytes(v: u8) -> Seq<u8> {
        le_bytes(v as nat, 1)
    }

    open spec fn spec_from_bytes(b: Seq<u8>) -> u8 {
        le_value(b) as u8
    }

    proof fn lemma_codec() {
        lemma_le_codec(1);
        lemma_pow256_values();
        assert forall|b: Seq<u8>| b.len() == size_of::<u8>() implies #[trigger] Self::spec_to_bytes(
            Self::spec_from_bytes(b),
        ) == b by {
            lemma_le_round(b);
        }
    }

    fn read_bytes(b: &[u8]) -> (r: u8) {
        proof {
            lemma_le_codec(1);
            lemma_pow256_values();
        }
        read_le(b) as u8
    }

    fn write_bytes(&self, out: &mut Vec<u8>) {
        write_le(*self as u64, 1, out);
    }
}

impl PodTransmutable for u16 {
    open spec fn spec_to_bytes(v: u16) -> Seq<u8> {
        le_bytes(v as nat, 2)
    }

    open spec fn spec_from_bytes(b: Seq<u8>) -> u16 {
        le_value(b) as u16
    }

    proof fn lemma_codec() {
        lemma_le_codec(2);
        lemma_pow256_values();
        assert forall|b: Seq<u8>| b.len() == size_of::<u16>() implies #[trigger] Self::spec_to_bytes(
            Self::spec_from_bytes(b),
        ) == b by {
            lemma_le_round(b);
        }
    }

    fn read_bytes(b: &[u8]) -> (r: u16) {
        proof {
            lemma_le_codec(2);
            lemma_pow256_values();
        }
        read_le(b) as u16
    }

    fn write_bytes(&self, out: &mut Vec<u8>) {
        write_le(*self as u64, 2, out);
    }
}

impl PodTransmutable for u32 {
    open spec fn spec_to_bytes(v: u32) -> Seq<u8> {
        le_bytes(v as nat, 4)
    }

    open spec fn spec_from_bytes(b: Seq<u8>) -> u32 {
        le_value(b) as u32
    }

    proof fn lemma_codec() {
        lemma_le_codec(4);
        lemma_pow256_values();
        assert forall|b: Seq<u8>| b.len() == size_of::<u32>() implies #[trigger] Self::spec_to_bytes(
            Self::spec_from_bytes(b),
        ) == b by {
            lemma_le_round(b);
        }
    }

    fn read_bytes(b: &[u8]) -> (r: u32) {
        proof {
            lemma_le_codec(4);
            lemma_pow256_values();
        }
        read_le(b) as u32
    }

    fn write_bytes(&self, out: &mut Vec<u8>) {
        write_le(*self as u64, 4, out);
    }
}

impl PodTransmutable for u64 {
    open spec fn spec_to_bytes(v: u64) -> Seq<u8> {
        le_bytes(v as nat, 8)
    }

    open spec fn spec_from_bytes(b: Seq<u8>) -> u64 {
        le_value(b) as u64
    }

    proof fn lemma_codec() {
        lemma_le_codec(8);
        lemma_pow256_values();
        assert forall|b: Seq<u8>| b.len() == size_of::<u64>() implies #[trigger] Self::spec_to_bytes(
            Self::spec_from_bytes(b),
        ) == b by {
            lemma_le_round(b);
        }
    }

    fn read_bytes(b: &[u8]) -> (r: u64) {
        read_le(b)
    }

    fn write_bytes(&self, out: &mut Vec<u8>) {
        write_le(*self, 8, out);
    }
}

impl PodTransmutable for i8 {
    open spec fn spec_to_bytes(v: i8) -> Seq<u8> {
        le_bytes((v as u8) as nat, 1)
    }

    open spec fn spec_from_bytes(b: Seq<u8>) -> i8 {
        (le_value(b) as u8) as i8
    }

    proof fn lemma_codec() {
        lemma_le_codec(1);
        lemma_pow256_values();
        assert(forall|v: i8| #[trigger] ((v as u8) as i8) == v) by (bit_vector);
        assert(forall|v: u8| #[trigger] ((v as i8) as u8) == v) by (bit_vector);
        assert forall|b: Seq<u8>| b.len() == size_of::<i8>() implies #[trigger] Self::spec_to_bytes(
            Self::spec_from_bytes(b),
        ) == b by {
            lemma_le_round(b);
            let w = le_value(b) as u8;
            assert(((w as i8) as u8) == w);
        }
        assert forall|v: i8| #[trigger] Self::spec_from_bytes(Self::spec_to_bytes(v)) == v by {
            let w = v as u8;
            assert(((w as nat) as u8) == w);
        }
    }

    fn read_bytes(b: &[u8]) -> (r: i8) {
        proof {
            lemma_le_codec(1);
            lemma_pow256_values();
        }
        (read_le(b) as u8) as i8
    }

    fn write_bytes(&self, out: &mut Vec<u8>) {
        write_le((*self as u8) as u64, 1, out);
    }
}

impl PodTransmutable for i16 {
    open spec fn spec_to_bytes(v: i16) -> Seq<u8> {
        le_bytes((v as u16) as nat, 2)
    }

    open spec fn spec_from_bytes(b: Seq<u8>) -> i16 {
        (le_value(b) as u16) as i16
    }

    proof fn lemma_codec() {
        lemma_le_codec(2);
        lemma_pow256_values();
        assert(forall|v: i16| #[trigger] ((v as u16) as i16) == v) by (bit_vector);
        assert(forall|v: u16| #[trigger] ((v as i16) as u16) == v) by (bit_vector);
        assert forall|b: Seq<u8>| b.len() == size_of::<i16>() implies #[trigger] Self::spec_to_bytes(
            Self::spec_from_bytes(b),
        ) == b by {
            lemma_le_round(b);
            let w = le_value(b) as u16;
            assert(((w as i16) as u16) == w);
        }
        assert forall|v: i16| #[trigger] Self::spec_from_bytes(Self::spec_to_bytes(v)) == v by {
            let w = v as u16;
            assert(((w as nat) as u16) == w);
        }
    }

    fn read_bytes(b: &[u8]) -> (r: i16) {
        proof {
            lemma_le_codec(2);
            lemma_pow256_values();
        }
        (read_le(b) as u16) as i16
    }

    fn write_bytes(&self, out: &mut Vec<u8>) {
        write_le((*self as u16) as u64, 2, out);
    }
}

impl PodTransmutable for i32 {
    open spec fn spec_to_bytes(v: i32) -> Seq<u8> {
        le_bytes((v as u32) as nat, 4)
    }

    open spec fn spec_from_bytes(b: Seq<u8>) -> i32 {
        (le_value(b) as u32) as i32
    }

    proof fn lemma_codec() {
        lemma_le_codec(4);
        lemma_pow256_values();
        assert(forall|v: i32| #[trigger] ((v as u32) as i32) == v) by (bit_vector);
        assert(forall|v: u32| #[trigger] ((v as i32) as u32) == v) by (bit_vector);
        assert forall|b: Seq<u8>| b.len() == size_of::<i32>() implies #[trigger] Self::spec_to_bytes(
            Self::spec_from_bytes(b),
        ) == b by {
            lemma_le_round(b);
            let w = le_value(b) as u32;
            assert(((w as i32) as u32) == w);
        }
        assert forall|v: i32| #[trigger] Self::spec_from_bytes(Self::spec_to_bytes(v)) == v by {
            let w = v as u32;
            assert(((w as nat) as u32) == w);
        }
    }

    fn read_bytes(b: &[u8]) -> (r: i32) {
        proof {
            lemma_le_codec(4);
            lemma_pow256_values();
        }
        (read_le(b) as u32) as i32
    }

    fn write_bytes(&self, out: &mut Vec<u8>) {
        write_le((*self as u32) as u64, 4, out);
    }
}

impl PodTransmutable for i64 {
    open spec fn spec_to_bytes(v: i64) -> Seq<u8> {
        le_bytes((v as u64) as nat, 8)
    }

    open spec fn spec_from_bytes(b: Seq<u8>) -> i64 {
        (le_value(b) as u64) as i64
    }

    proof fn lemma_codec() {
        lemma_le_codec(8);
        lemma_pow256_values();
        assert(forall|v: i64| #[trigger] ((v as u64) as i64) == v) by (bit_vector);
        assert(forall|v: u64| #[trigger] ((v as i64) as u64) == v) by (bit_vector);
        assert forall|b: Seq<u8>| b.len() == size_of::<i64>() implies #[trigger] Self::spec_to_bytes(
            Self::spec_from_bytes(b),
        ) == b by {
            lemma_le_round(b);
            let w = le_value(b) as u64;
            assert(((w as i64) as u64) == w);
        }
        assert forall|v: i64| #[trigger] Self::spec_from_bytes(Self::spec_to_bytes(v)) == v by {
            let w = v as u64;
            assert(((w as nat) as u64) == w);
        }
    }

    fn read_bytes(b: &[u8]) -> (r: i64) {
        read_le(b) as i64
    }

    fn write_bytes(&self, out: &mut Vec<u8>) {
        write_le((*self as u64) as u64, 8, out);
    }
}

/// The elements that the bytes `b` hold: one for each whole run of an
/// element's size from the start, a trailing remainder ignored.
pub open spec fn decode_elems<T: PodTransmutable>(b: Seq<u8>) -> Seq<T> {
    let size = size_of::<T>();
    Seq::new(
        b.len() / size,
        |i: int| T::spec_from_bytes(b.subrange(i * size, i * size + size)),
    )
}

/// The bytes of a run of elements: their images one after another.
pub open spec fn encode_elems<T: PodTransmutable>(s: Seq<T>) -> Seq<u8>
    decreases s.len(),
{
    if s.len() == 0 {
        Seq::empty()
    } else {
        encode_elems(s.drop_last()) + T::spec_to_bytes(s.last())
    }
}

/// A run of `n` elements takes `n` times an element's size.
pub proof fn lemma_encode_len<T: PodTransmutable>(s: Seq<T>)
    ensures
        encode_elems(s).len() == s.len() * size_of::<T>(),
    decreases s.len(),
{
    T::lemma_codec();
    if s.len() > 0 {
        lemma_encode_len(s.drop_last());
        let n = s.len() as int;
        let size = size_of::<T>() as int;
        assert((n - 1) * size + size == n * size) by (nonlinear_arith);
    }
}

/// The `i`-th element's bytes in a run are the `i`-th element's image.
pub proof fn lemma_encode_chunk<T: PodTransmutable>(s: Seq<T>, i: int)
    requires
        0 <= i < s.len(),
    ensures
        encode_elems(s).subrange(i * size_of::<T>(), i * size_of::<T>() + size_of::<T>())
            == T::spec_to_bytes(s[i]),
    decreases s.len(),
{
    T::lemma_codec();
    let size = size_of::<T>() as int;
    let n = s.len() as int;
    let front = s.drop_last();
    lemma_encode_len(front);
    assert((n - 1) * size + size == n * size) by (nonlinear_arith);
    if i < n - 1 {
        lemma_encode_chunk(front, i);
        assert(i * size + size <= (n - 1) * size) by (nonlinear_arith)
            requires
                i + 1 <= n - 1,
                size >= 0,
        ;
        assert(encode_elems(s).subrange(i * size, i * size + size) =~= encode_elems(
            front,
        ).subrange(i * size, i * size + size));
    } else {
        assert(encode_elems(s).subrange(i * size, i * size + size) =~= T::spec_to_bytes(s[i]));
    }
}

/// Reading back the bytes of a run of elements gives the run.
pub proof fn lemma_decode_encode<T: PodTransmutable>(s: Seq<T>)
    ensures
        decode_elems::<T>(encode_elems(s)) == s,
{
    T::lemma_codec();
    let size = size_of::<T>() as int;
    lemma_encode_len(s);
    vstd::arithmetic::div_mod::lemma_div_multiples_vanish(s.len() as int, size);
    assert(s.len() * size == size * s.len()) by (nonlinear_arith);
    assert forall|i: int| 0 <= i < s.len() implies #[trigger] decode_elems::<T>(encode_elems(s))[i]
        == s[i] by {
        lemma_encode_chunk(s, i);
    }
    assert(decode_elems::<T>(encode_elems(s)) =~= s);
}

/// A run of `s.len()` elements whose images are the consecutive chunks of
/// `b` is written as the first `s.len()` chunks of `b`.
proof fn lemma_encode_of_chunks<T: PodTransmutable>(s: Seq<T>, b: Seq<u8>)
    requires
        s.len() * size_of::<T>() <= b.len(),
        forall|i: int|
            0 <= i < s.len() ==> #[trigger] T::spec_to_bytes(s[i]) == b.subrange(
                i * size_of::<T>(),
                i * size_of::<T>() + size_of::<T>(),
            ),
    ensures
        encode_elems(s) == b.take((s.len() * size_of::<T>()) as int),
    decreases s.len(),
{
    T::lemma_codec();
    let size = size_of::<T>() as int;
    let n = s.len() as int;
    if n == 0 {
        assert(b.take(0) =~= Seq::<u8>::empty());
    } else {
        let front = s.drop_last();
        assert((n - 1) * size + size == n * size) by (nonlinear_arith);
        assert((n - 1) * size <= n * size) by (nonlinear_arith)
            requires
                size >= 0,
        ;
        assert forall|i: int| 0 <= i < front.len() implies #[trigger] T::spec_to_bytes(front[i])
            == b.subrange(i * size, i * size + size) by {
            assert(front[i] == s[i]);
        }
        lemma_encode_of_chunks(front, b);
        assert(T::spec_to_bytes(s[n - 1]) == b.subrange((n - 1) * size, (n - 1) * size + size));
        assert(encode_elems(s) =~= b.take(n * size));
    }
}

/// Writing out the elements read from `b` gives back the whole-element part
/// of `b`: what lies past it is neither read nor kept.
pub proof fn lemma_encode_decode<T: PodTransmutable>(b: Seq<u8>)
    ensures
        decode_elems::<T>(b).len() == b.len() / size_of::<T>(),
        encode_elems(decode_elems::<T>(b)) == b.take(
            ((b.len() / size_of::<T>()) * size_of::<T>()) as int,
        ),
{
    T::lemma_codec();
    let size = size_of::<T>() as int;
    let s = decode_elems::<T>(b);
    let n = s.len() as int;
    assert(n * size <= b.len()) by {
        vstd::arithmetic::div_mod::lemma_fundamental_div_mod(b.len() as int, size);
        vstd::arithmetic::div_mod::lemma_mod_pos_bound(b.len() as int, size);
        vstd::arithmetic::mul::lemma_mul_is_commutative(n, size);
    }
    assert forall|i: int| 0 <= i < n implies #[trigger] T::spec_to_bytes(s[i]) == b.subrange(
        i * size,
        i * size + size,
    ) by {
        assert(i * size + size <= n * size) by (nonlinear_arith)
            requires
                i + 1 <= n,
                size >= 0,
        ;
        assert(i * size >= 0) by (nonlinear_arith)
            requires
                i >= 0,
                size >= 0,
        ;
    }
    lemma_encode_of_chunks(s, b);
}

} // verus!
