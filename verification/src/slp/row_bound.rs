use vstd::prelude::*;

use crate::slp::error::SLPError;
use crate::slp::read::le16_at;
use crate::slp::read::read_u16_at;
use crate::slp::unpack::UnpackFixedSize;

verus! {

/// The raw value that marks a fully transparent row in a bounds record.
pub const ROW_BOUND_SENTINEL: u16 = 0x8000;

/// Bounds data for a row in an SLP frame.
#[derive(Clone, Copy, Debug, PartialEq, Eq, Structural)]
pub struct SLPRowBoundData {
    /// Number of transparent pixels prepended on the left.
    pub left: u16,
    /// Number of transparent pixels appended on the right.
    pub right: u16,
}

impl SLPRowBoundData {
    /// Create a new SLP row bound.
    pub fn new(left: u16, right: u16) -> (r: Self)
        ensures
            r.left == left,
            r.right == right,
    {
        Self { left, right }
    }
}

/// Bounds for a row in an SLP frame.
#[derive(Clone, Copy, Debug, PartialEq, Eq, Structural)]
pub struct SLPRowBound {
    /// Bounds data.
    pub data: SLPRowBoundData,
    /// true if the row is completely transparent, else false.
    pub full_row: bool,
}

/// The row bound encoded by the four bytes at `off` in `b`: two little-endian
/// 16-bit padding counts, with either one equal to the sentinel forcing a
/// fully transparent row with both counts zero.
pub open spec fn spec_row_bound_at(b: Seq<u8>, off: int) -> SLPRowBound
    recommends
        0 <= off,
        off + 4 <= b.len(),
{
    let left = le16_at(b, off);
    let right = le16_at(b, off + 2);
    if left == ROW_BOUND_SENTINEL || right == ROW_BOUND_SENTINEL {
        SLPRowBound { data: SLPRowBoundData { left: 0, right: 0 }, full_row: true }
    } else {
        SLPRowBound {
            data: SLPRowBoundData { left: left as u16, right: right as u16 },
            full_row: false,
        }
    }
}

impl SLPRowBound {
    /// Create a new SLP row bound.
    pub fn new(left: u16, right: u16, full_row: bool) -> (r: Self)
        ensures
            r.data.left == left,
            r.data.right == right,
            r.full_row == full_row,
    {
        Self { data: SLPRowBoundData::new(left, right), full_row }
    }

    /// Create a new SLP row bound from existing bounds data.
    pub fn from_data(data: SLPRowBoundData, full_row: bool) -> (r: Self)
        ensures
            r.data == data,
            r.full_row == full_row,
    {
        Self { data, full_row }
    }

    /// Number of transparent pixels prepended on the left.
    pub fn get_left(&self) -> (r: u16)
        ensures
            r == self.data.left,
    {
        self.data.left
    }

    /// Number of transparent pixels appended on the right.
    pub fn get_right(&self) -> (r: u16)
        ensures
            r == self.data.right,
    {
        self.data.right
    }
}

impl UnpackFixedSize for SLPRowBound {
    open spec fn spec_can_unpack(b: Seq<u8>, offset: int) -> bool {
        offset + 4 <= b.len()
    }

    open spec fn spec_unpacked(b: Seq<u8>, offset: int, v: Self) -> bool {
        v == spec_row_bound_at(b, offset)
    }

    open spec fn spec_unpack_err(b: Seq<u8>, offset: int) -> SLPError {
        SLPError::TruncatedInput { offset: offset as u64 }
    }

    fn from_buffer(buffer: &[u8], offset: usize) -> (r: Result<Self, SLPError>) {
        if buffer.len() < 4 || offset > buffer.len() - 4 {
            return Err(SLPError::TruncatedInput { offset: offset as u64 });
        }
        let left = read_u16_at(buffer, offset);
        let right = read_u16_at(buffer, offset + 2);

        if left == ROW_BOUND_SENTINEL || right == ROW_BOUND_SENTINEL {
            // row is completely transparent
            return Ok(Self::new(0, 0, true));
        }

        Ok(Self::new(left, right, false))
    }

    fn from_bytes(bytes: &[u8]) -> (r: Result<Self, SLPError>) {
        if bytes.len() < 4 {
            return Err(SLPError::TruncatedInput { offset: 0 });
        }
        let left = read_u16_at(bytes, 0);
        let right = read_u16_at(bytes, 2);

        if left == ROW_BOUND_SENTINEL || right == ROW_BOUND_SENTINEL {
            // row is completely transparent
            return Ok(Self::new(0, 0, true));
        }

        Ok(Self::new(left, right, false))
    }
}

} // verus!
