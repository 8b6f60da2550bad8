//! Integers in network byte order, and appending to a byte buffer.

use byteorder::{BigEndian, WriteBytesExt};
use bytes::BufMut;
use vstd::prelude::*;

verus! {

/// The two bytes of `n`, most significant first.
pub open spec fn be16_bytes(n: u16) -> Seq<u8> {
    seq![(n / 0x100) as u8, (n % 0x100) as u8]
}

/// The eight bytes of `n`, most significant first.
pub open spec fn be64_bytes(n: u64) -> Seq<u8> {
    seq![
        (n / 0x100_0000_0000_0000) as u8,
        (n / 0x1_0000_0000_0000 % 0x100) as u8,
        (n / 0x100_0000_0000 % 0x100) as u8,
        (n / 0x1_0000_0000 % 0x100) as u8,
        (n / 0x100_0000 % 0x100) as u8,
        (n / 0x1_0000 % 0x100) as u8,
        (n / 0x100 % 0x100) as u8,
        (n % 0x100) as u8,
    ]
}

/// Appends `n` with `bytes::BufMut::put_u16`, which writes a 16-bit integer
/// in big-endian order; on a `Vec<u8>` it extends the vector by the two
/// bytes.
#[verifier::external_body]
pub(crate) fn put_u16_be(buf: &mut Vec<u8>, n: u16)
    ensures
        final(buf)@ == old(buf)@ + be16_bytes(n),
{
    buf.put_u16(n);
}

/// Appends `n` with `byteorder::WriteBytesExt::write_u64::<BigEndian>`,
/// which hands the eight big-endian bytes of `n` to the writer; a `Vec<u8>`
/// takes every write by growing, so the call cannot fail on it.
#[verifier::external_body]
pub(crate) fn write_u64_be(buf: &mut Vec<u8>, n: u64)
    ensures
        final(buf)@ == old(buf)@ + be64_bytes(n),
{
    let _ = buf.write_u64::<BigEndian>(n);
}

/// Appends `bytes` to `buf`.
pub fn append_bytes(buf: &mut Vec<u8>, bytes: &[u8])
    ensures
        final(buf)@ == old(buf)@ + bytes@,
{
    let mut i: usize = 0;
    while i < bytes.len()
        invariant
            i <= bytes@.len(),
            buf@ == old(buf)@ + bytes@.take(i as int),
        decreases bytes@.len() - i,
    {
        buf.push(bytes[i]);
        i = i + 1;
    }
}

} // verus!
