use vstd::prelude::*;

use crate::slp::error::SLPError;
use crate::slp::pixel::PalettePixel;
use crate::slp::read::le16_at;
use crate::slp::read::read_u16_at;
use crate::slp::unpack::UnpackFixedSize;

verus! {

/// Raw bounds record of a row, before the transparency sentinel is applied.
#[derive(Clone, Copy, Debug, PartialEq, Eq, Structural)]
pub struct SLPFrameBound {
    /// Number of transparent pixels prepended on the left.
    pub left: u16,
    /// Number of transparent pixels appended on the right.
    pub right: u16,
}

impl SLPFrameBound {
    /// Create a new raw bounds record.
    pub fn new(left: u16, right: u16) -> (r: Self)
        ensures
            r.left == left,
            r.right == right,
    {
        Self { left, right }
    }
}

impl UnpackFixedSize for SLPFrameBound {
    open spec fn spec_can_unpack(b: Seq<u8>, offset: int) -> bool {
        offset + 4 <= b.len()
    }

    open spec fn spec_unpacked(b: Seq<u8>, offset: int, v: Self) -> bool {
        v.left == le16_at(b, offset) && v.right == le16_at(b, offset + 2)
    }

    open spec fn spec_unpack_err(b: Seq<u8>, offset: int) -> SLPError {
        SLPError::TruncatedInput { offset: offset as u64 }
    }

    fn from_buffer(buffer: &[u8], offset: usize) -> (r: Result<Self, SLPError>) {
        if buffer.len() < 4 || offset > buffer.len() - 4 {
            return Err(SLPError::TruncatedInput { offset: offset as u64 });
        }
        let left = read_u16_at(buffer, offset);
        let right = read_u16_at(buffer, offset + 2);

        Ok(SLPFrameBound::new(left, right))
    }

    fn from_bytes(bytes: &[u8]) -> (r: Result<Self, SLPError>) {
        Self::from_buffer(bytes, 0)
    }
}

/// Frame data held as raw tables plus decoded rows.
pub struct SLPFrameData<T> {
    /// Bounds table.
    pub bounds_table: Vec<SLPFrameBound>,
    /// Command table.
    pub cmd_table: Vec<u32>,
    /// Decoded rows.
    pub row_data: Vec<Vec<T>>,
}

impl SLPFrameData<PalettePixel> {
    /// Create a new frame data value from its tables and decoded rows.
    pub fn new(
        outline_table: Vec<SLPFrameBound>,
        cmd_table: Vec<u32>,
        row_data: Vec<Vec<PalettePixel>>,
    ) -> (r: Self)
        ensures
            r.bounds_table == outline_table,
            r.cmd_table == cmd_table,
            r.row_data == row_data,
    {
        Self { bounds_table: outline_table, cmd_table, row_data }
    }
}

} // verus!
