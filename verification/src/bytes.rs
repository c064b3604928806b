//! Byte-level access to wire messages.
//!
//! Fixed-size views of a buffer and the integers in it come from `zerocopy`;
//! the contracts here say what each of those calls gives.

use vstd::prelude::*;
use zerocopy::FromBytes;
use zerocopy::IntoBytes;

verus! {

/// The value of two little-endian bytes.
pub open spec fn le16(s: Seq<u8>) -> int {
    s[0] + 0x100 * s[1]
}

/// The value of four little-endian bytes.
pub open spec fn le32(s: Seq<u8>) -> int {
    s[0] + 0x100 * s[1] + 0x1_0000 * s[2] + 0x100_0000 * s[3]
}

/// The value of four big-endian bytes.
pub open spec fn be32(s: Seq<u8>) -> int {
    0x100_0000 * s[0] + 0x1_0000 * s[1] + 0x100 * s[2] + s[3]
}

/// The two little-endian bytes of `x`.
pub open spec fn le16_bytes(x: u16) -> Seq<u8> {
    seq![(x % 0x100) as u8, (x / 0x100) as u8]
}

/// The four little-endian bytes of `x`.
pub open spec fn le32_bytes(x: u32) -> Seq<u8> {
    seq![
        (x % 0x100) as u8,
        (x / 0x100 % 0x100) as u8,
        (x / 0x1_0000 % 0x100) as u8,
        (x / 0x100_0000) as u8,
    ]
}

/// The four big-endian bytes of `x`.
pub open spec fn be32_bytes(x: u32) -> Seq<u8> {
    seq![
        (x / 0x100_0000) as u8,
        (x / 0x1_0000 % 0x100) as u8,
        (x / 0x100 % 0x100) as u8,
        (x % 0x100) as u8,
    ]
}

/// `n` zero bytes.
pub open spec fn zeros(n: nat) -> Seq<u8> {
    Seq::new(n, |i: int| 0u8)
}

/// The low 32 bits of `n`.
pub open spec fn low32(n: int) -> u32 {
    (n % 0x1_0000_0000) as u32
}

/// Encoding an integer and reading the bytes back gives the integer again, in
/// each width and byte order in use.
pub proof fn law_integer_bytes_round_trip(x: u16, y: u32)
    ensures
        le16_bytes(x).len() == 2,
        le16(le16_bytes(x)) == x,
        le32_bytes(y).len() == 4,
        le32(le32_bytes(y)) == y,
        be32_bytes(y).len() == 4,
        be32(be32_bytes(y)) == y,
{
}

/// Reading an integer and encoding it again gives the bytes back.
pub proof fn law_bytes_integer_round_trip(s: Seq<u8>, t: Seq<u8>)
    requires
        s.len() == 2,
        t.len() == 4,
    ensures
        le16_bytes(le16(s) as u16) == s,
        le32_bytes(le32(t) as u32) == t,
        be32_bytes(be32(t) as u32) == t,
{
    assert(le16_bytes(le16(s) as u16) =~= s);
    lemma_base_256_digits(t[0], t[1], t[2], t[3]);
    lemma_base_256_digits(t[3], t[2], t[1], t[0]);
    assert(le32_bytes(le32(t) as u32) =~= t);
    assert(be32_bytes(be32(t) as u32) =~= t);
}

/// The four base-256 digits of an integer made of them.
proof fn lemma_base_256_digits(a: u8, b: u8, c: u8, d: u8)
    ensures
        ({
            let x = a + 0x100 * b + 0x1_0000 * c + 0x100_0000 * d;
            &&& x < 0x1_0000_0000
            &&& x % 0x100 == a
            &&& x / 0x100 % 0x100 == b
            &&& x / 0x1_0000 % 0x100 == c
            &&& x / 0x100_0000 == d
        }),
{
    let x = a + 0x100 * b + 0x1_0000 * c + 0x100_0000 * d;
    assert(x / 0x100 == b + 0x100 * c + 0x1_0000 * d);
    assert(x / 0x1_0000 == c + 0x100 * d);
}

/// `zerocopy::FromBytes::ref_from_prefix` for an array of `N` bytes: the first
/// `N` bytes of `source` and what follows them, if `source` has that many.
#[verifier::external_body]
pub(crate) fn array_prefix<const N: usize>(source: &[u8]) -> (r: Option<(&[u8; N], &[u8])>)
    requires
        N > 0,
    ensures
        match r {
            Some((head, rest)) => {
                &&& N <= source@.len()
                &&& head@ == source@.subrange(0, N as int)
                &&& rest@ == source@.subrange(N as int, source@.len() as int)
            },
            None => source@.len() < N,
        },
{
    <[u8; N]>::ref_from_prefix(source).ok()
}

/// `zerocopy::FromBytes::ref_from_bytes` for an array of `N` bytes: the bytes
/// of `source`, if there are exactly `N` of them.
#[verifier::external_body]
pub(crate) fn array_exact<const N: usize>(source: &[u8]) -> (r: Option<&[u8; N]>)
    requires
        N > 0,
    ensures
        match r {
            Some(a) => source@.len() == N && a@ == source@,
            None => source@.len() != N,
        },
{
    <[u8; N]>::ref_from_bytes(source).ok()
}

/// `zerocopy::IntoBytes::as_bytes` for an array of `N` bytes: those bytes.
#[verifier::external_body]
pub(crate) fn array_bytes<const N: usize>(array: &[u8; N]) -> (r: &[u8])
    ensures
        r@ == array@,
{
    array.as_bytes()
}

/// `zerocopy::little_endian::U16::get`: the value that the two bytes of a
/// little-endian `U16` stand for.
#[verifier::external_body]
pub(crate) fn u16_le(bytes: [u8; 2]) -> (r: u16)
    ensures
        r == le16(bytes@),
{
    zerocopy::little_endian::U16::from_bytes(bytes).get()
}

/// `zerocopy::little_endian::U32::get`: the value that the four bytes of a
/// little-endian `U32` stand for.
#[verifier::external_body]
pub(crate) fn u32_le(bytes: [u8; 4]) -> (r: u32)
    ensures
        r == le32(bytes@),
{
    zerocopy::little_endian::U32::from_bytes(bytes).get()
}

/// `zerocopy::big_endian::U32::get`: the value that the four bytes of a
/// big-endian `U32` stand for.
#[verifier::external_body]
pub(crate) fn u32_be(bytes: [u8; 4]) -> (r: u32)
    ensures
        r == be32(bytes@),
{
    zerocopy::big_endian::U32::from_bytes(bytes).get()
}

/// `zerocopy::little_endian::U16::new`: its two bytes hold `x` in
/// little-endian order.
#[verifier::external_body]
pub(crate) fn u16_le_bytes(x: u16) -> (r: [u8; 2])
    ensures
        r@ == le16_bytes(x),
{
    zerocopy::little_endian::U16::new(x).to_bytes()
}

/// `zerocopy::little_endian::U32::new`: its four bytes hold `x` in
/// little-endian order.
#[verifier::external_body]
pub(crate) fn u32_le_bytes(x: u32) -> (r: [u8; 4])
    ensures
        r@ == le32_bytes(x),
{
    zerocopy::little_endian::U32::new(x).to_bytes()
}

/// `zerocopy::big_endian::U32::new`: its four bytes hold `x` in big-endian
/// order.
#[verifier::external_body]
pub(crate) fn u32_be_bytes(x: u32) -> (r: [u8; 4])
    ensures
        r@ == be32_bytes(x),
{
    zerocopy::big_endian::U32::new(x).to_bytes()
}

/// `n` cut to its low 32 bits, as an `as u32` cast does.
pub(crate) fn cut_to_u32(n: usize) -> (r: u32)
    ensures
        r == low32(n as int),
{
    let wide: u64 = n as u64;
    assert(wide as u32 == wide % 0x1_0000_0000) by (bit_vector);
    #[verifier::truncate]
    let r: u32 = wide as u32;
    r
}

/// Appends the bytes of `tail` to `out`.
pub(crate) fn push_bytes(out: &mut Vec<u8>, tail: &[u8])
    ensures
        final(out)@ == old(out)@ + tail@,
{
    out.extend_from_slice(tail);
    assert(out@ =~= old(out)@ + tail@);
}

/// Appends `n` zero bytes to `out`.
pub(crate) fn push_zeros(out: &mut Vec<u8>, n: usize)
    ensures
        final(out)@ == old(out)@ + zeros(n as nat),
{
    let mut i: usize = 0;
    while i < n
        invariant
            i <= n,
            out@ =~= old(out)@ + zeros(i as nat),
        decreases n - i,
    {
        out.push(0);
        i += 1;
    }
}

/// The encodings hold the base-256 digits of an integer: the low one first in
/// little-endian order, the high one first in big-endian order.
pub proof fn law_bytes_are_digits(x: u16, y: u32)
    ensures
        le16_bytes(x).len() == 2,
        le16_bytes(x)[0] + 0x100 * le16_bytes(x)[1] == x,
        le32_bytes(y).len() == 4,
        le32_bytes(y)[0] + 0x100 * le32_bytes(y)[1] + 0x1_0000 * le32_bytes(y)[2] + 0x100_0000
            * le32_bytes(y)[3] == y,
        be32_bytes(y) == le32_bytes(y).reverse(),
{
}

/// An integer that was read has the bytes as its base-256 digits.
pub proof fn law_read_integers_have_the_digits(s: Seq<u8>, t: Seq<u8>)
    requires
        s.len() == 2,
        t.len() == 4,
    ensures
        0 <= le16(s) < 0x1_0000,
        le16(s) % 0x100 == s[0],
        le16(s) / 0x100 == s[1],
        0 <= le32(t) < 0x1_0000_0000,
        le32(t) % 0x100 == t[0],
        le32(t) / 0x100 % 0x100 == t[1],
        le32(t) / 0x1_0000 % 0x100 == t[2],
        le32(t) / 0x100_0000 == t[3],
        be32(t) == le32(t.reverse()),
{
    lemma_base_256_digits(t[0], t[1], t[2], t[3]);
}

/// Cutting an integer to 32 bits takes a multiple of 2^32 away.
pub proof fn law_low_bits(n: int)
    requires
        0 <= n,
    ensures
        low32(n) <= n,
        (n - low32(n)) % 0x1_0000_0000 == 0,
        n <= 0xFFFF_FFFF ==> low32(n) == n,
{
}

} // verus!
