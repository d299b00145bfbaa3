//! Little-endian byte writers and their mathematical descriptions.

use vstd::prelude::*;
use vstd::bytes::*;
use vstd::utf8::encode_utf8;

verus! {

/// Four little-endian bytes of an unsigned 32-bit value.
pub open spec fn le32(x: u32) -> Seq<u8> {
    spec_u32_to_le_bytes(x)
}

/// Eight little-endian bytes of an unsigned 64-bit value.
pub open spec fn le64(x: u64) -> Seq<u8> {
    spec_u64_to_le_bytes(x)
}

/// Eight little-endian two's-complement bytes of a signed 64-bit value.
pub open spec fn lei64(x: i64) -> Seq<u8> {
    spec_u64_to_le_bytes(x as u64)
}

/// UTF-8 bytes of a character sequence.
pub open spec fn utf8(s: Seq<char>) -> Seq<u8> {
    encode_utf8(s)
}

/// `n` zero bytes.
pub open spec fn zeros(n: nat) -> Seq<u8> {
    Seq::new(n, |i: int| 0u8)
}

/// A string length field: the UTF-8 byte count, truncated to 32 bits.
pub open spec fn len32(s: Seq<char>) -> u32 {
    (utf8(s).len() % 0x1_0000_0000) as u32
}

pub fn put_u8(buf: &mut Vec<u8>, x: u8)
    ensures
        final(buf)@ == old(buf)@ + seq![x],
{
    buf.push(x);
    assert(final(buf)@ =~= old(buf)@ + seq![x]);
}

pub fn put_u32(buf: &mut Vec<u8>, x: u32)
    ensures
        final(buf)@ == old(buf)@ + le32(x),
{
    let mut b = u32_to_le_bytes(x);
    buf.append(&mut b);
}

pub fn put_u64(buf: &mut Vec<u8>, x: u64)
    ensures
        final(buf)@ == old(buf)@ + le64(x),
{
    let mut b = u64_to_le_bytes(x);
    buf.append(&mut b);
}

pub fn put_i64(buf: &mut Vec<u8>, x: i64)
    ensures
        final(buf)@ == old(buf)@ + lei64(x),
{
    let mut b = u64_to_le_bytes(x as u64);
    buf.append(&mut b);
}

pub fn put_slice(buf: &mut Vec<u8>, s: &[u8])
    ensures
        final(buf)@ == old(buf)@ + s@,
{
    let ghost start = buf@;
    let mut i: usize = 0;
    while i < s.len()
        invariant
            i <= s@.len(),
            buf@ == start + s@.subrange(0, i as int),
        decreases s@.len() - i,
    {
        buf.push(s[i]);
        i = i + 1;
        assert(buf@ =~= start + s@.subrange(0, i as int));
    }
    assert(s@.subrange(0, s@.len() as int) =~= s@);
}

/// Appends the UTF-8 bytes of `s`.
pub fn put_str(buf: &mut Vec<u8>, s: &str)
    ensures
        final(buf)@ == old(buf)@ + utf8(s@),
{
    put_slice(buf, s.as_bytes());
}

/// The 32-bit length field of a string.
pub fn str_len32(s: &str) -> (r: u32)
    ensures
        r == len32(s@),
{
    let n = s.as_bytes().len();
    assert(n == utf8(s@).len());
    #[verifier::truncate]
    let r = (n as u64 % 0x1_0000_0000u64) as u32;
    r
}

} // verus!
