use byteorder::ByteOrder;
use vstd::prelude::*;

verus! {

/// The unsigned 16-bit value stored little-endian at `off` in `b`.
pub open spec fn le16_at(b: Seq<u8>, off: int) -> int
    recommends
        0 <= off,
        off + 2 <= b.len(),
{
    b[off] + 0x100 * b[off + 1]
}

/// The unsigned 32-bit value stored little-endian at `off` in `b`.
pub open spec fn le32_at(b: Seq<u8>, off: int) -> int
    recommends
        0 <= off,
        off + 4 <= b.len(),
{
    b[off] + 0x100 * b[off + 1] + 0x10000 * b[off + 2] + 0x1000000 * b[off + 3]
}

/// The signed (two's complement) 32-bit value stored little-endian at `off` in `b`.
pub open spec fn le32_signed_at(b: Seq<u8>, off: int) -> int
    recommends
        0 <= off,
        off + 4 <= b.len(),
{
    let u = le32_at(b, off);
    if u < 0x8000_0000 {
        u
    } else {
        u - 0x1_0000_0000
    }
}

/// Read a little-endian unsigned 16-bit value at `offset`.
pub fn read_u16_at(buffer: &[u8], offset: usize) -> (r: u16)
    requires
        offset + 2 <= buffer@.len(),
    ensures
        r as int == le16_at(buffer@, offset as int),
{
    let b0 = buffer[offset];
    let b1 = buffer[offset + 1];
    b0 as u16 + (b1 as u16) * 0x100
}

/// Read a little-endian unsigned 32-bit value at `offset`.
pub fn read_u32_at(buffer: &[u8], offset: usize) -> (r: u32)
    requires
        offset + 4 <= buffer@.len(),
    ensures
        r as int == le32_at(buffer@, offset as int),
{
    let b0 = buffer[offset];
    let b1 = buffer[offset + 1];
    let b2 = buffer[offset + 2];
    let b3 = buffer[offset + 3];
    b0 as u32 + (b1 as u32) * 0x100 + (b2 as u32) * 0x10000 + (b3 as u32) * 0x1000000
}

/// Relies on byteorder's `LittleEndian::read_u32`: it returns the unsigned
/// 32-bit integer stored little-endian in the first four bytes of its
/// argument, and panics only on slices shorter than four bytes.
#[verifier::external_body]
pub(crate) fn read_u32_le(buffer: &[u8], offset: usize) -> (r: u32)
    requires
        offset + 4 <= buffer@.len(),
    ensures
        r as int == le32_at(buffer@, offset as int),
{
    byteorder::LittleEndian::read_u32(&buffer[offset..offset + 4])
}

/// Relies on byteorder's `LittleEndian::read_i32`: it returns the two's
/// complement reading of the unsigned little-endian value in the first four
/// bytes of its argument, and panics only on slices shorter than four bytes.
#[verifier::external_body]
pub(crate) fn read_i32_le(buffer: &[u8], offset: usize) -> (r: i32)
    requires
        offset + 4 <= buffer@.len(),
    ensures
        r as int == le32_signed_at(buffer@, offset as int),
{
    byteorder::LittleEndian::read_i32(&buffer[offset..offset + 4])
}

/// Relies on `String::from_utf8`: ASCII bytes are valid UTF-8 and decode to
/// one `char` per byte; the `requires` keeps out inputs on which the
/// conversion could fail.
#[verifier::external_body]
pub(crate) fn ascii_to_string(bytes: &[u8]) -> (r: String)
    requires
        forall|i: int| 0 <= i < bytes@.len() ==> bytes@[i] < 0x80,
    ensures
        r@.len() == bytes@.len(),
        forall|i: int| 0 <= i < bytes@.len() ==> r@[i] == bytes@[i] as char,
{
    String::from_utf8(bytes.to_vec()).unwrap()
}

} // verus!
