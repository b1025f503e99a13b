//! Little-endian output of integers, through the `byteorder` crate.

use byteorder::LittleEndian;
use byteorder::WriteBytesExt;
use vstd::prelude::*;
use crate::opcode::i32_bits;
use crate::opcode::le16;
use crate::opcode::le32;

verus! {

/// `WriteBytesExt::write_u8` on a vector: appends the byte `n`. Writing to a
/// vector cannot fail.
#[verifier::external_body]
pub(crate) fn write_u8(buf: &mut Vec<u8>, n: u8)
    ensures
        final(buf)@ == old(buf)@.push(n),
{
    buf.write_u8(n).unwrap();
}

/// `WriteBytesExt::write_u16::<LittleEndian>` on a vector: appends the two
/// bytes of `n`, low byte first.
#[verifier::external_body]
pub(crate) fn write_u16(buf: &mut Vec<u8>, n: u16)
    ensures
        final(buf)@ == old(buf)@ + le16(n),
{
    buf.write_u16::<LittleEndian>(n).unwrap();
}

/// `WriteBytesExt::write_u32::<LittleEndian>` on a vector: appends the four
/// bytes of `n`, lowest byte first.
#[verifier::external_body]
pub(crate) fn write_u32(buf: &mut Vec<u8>, n: u32)
    ensures
        final(buf)@ == old(buf)@ + le32(n),
{
    buf.write_u32::<LittleEndian>(n).unwrap();
}

/// `WriteBytesExt::write_i32::<LittleEndian>` on a vector: appends the four
/// bytes of the two's-complement pattern of `n`, lowest byte first.
#[verifier::external_body]
pub(crate) fn write_i32(buf: &mut Vec<u8>, n: i32)
    ensures
        final(buf)@ == old(buf)@ + le32(i32_bits(n)),
{
    buf.write_i32::<LittleEndian>(n).unwrap();
}

} // verus!
