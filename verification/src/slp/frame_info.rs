use vstd::prelude::*;

use crate::slp::error::SLPError;
use crate::slp::read::le32_at;
use crate::slp::read::le32_signed_at;
use crate::slp::read::read_i32_le;
use crate::slp::read::read_u32_le;
use crate::slp::types::SLPVersion;
use crate::slp::unpack::UnpackFixedSize;

verus! {

/// SLP frame type.
#[derive(Clone, Copy, Debug, PartialEq, Eq, Structural)]
pub enum SLPFrameType {
    Main,
    Shadow,
}

/// Frame info data in an SLP file.
#[derive(Clone, Copy, Debug, PartialEq, Eq, Structural)]
pub struct SLPFrameInfoData {
    /// Offset of the command table.
    pub cmd_table_offset: u32,
    /// Offset of the bounds table.
    pub bounds_table_offset: u32,
    /// Offset of the palette.
    pub palette_offset: u32,
    /// Properties.
    pub properties: u32,
    /// Width of the frame.
    pub width: i32,
    /// Height of the frame.
    pub height: i32,
    /// X coordinate of the anchor point.
    pub anchor_x: i32,
    /// Y coordinate of the anchor point.
    pub anchor_y: i32,
}

/// The frame metadata record stored at `off` in `b`: eight little-endian
/// 32-bit fields in fixed order, the offsets unsigned and the dimensions and
/// anchor point signed.
pub open spec fn spec_frame_info_data_at(b: Seq<u8>, off: int) -> SLPFrameInfoData
    recommends
        0 <= off,
        off + 32 <= b.len(),
{
    SLPFrameInfoData {
        cmd_table_offset: le32_at(b, off) as u32,
        bounds_table_offset: le32_at(b, off + 4) as u32,
        palette_offset: le32_at(b, off + 8) as u32,
        properties: le32_at(b, off + 12) as u32,
        width: le32_signed_at(b, off + 16) as i32,
        height: le32_signed_at(b, off + 20) as i32,
        anchor_x: le32_signed_at(b, off + 24) as i32,
        anchor_y: le32_signed_at(b, off + 28) as i32,
    }
}

impl SLPFrameInfoData {
    /// Create a new SLP frame info record.
    pub fn new(
        cmd_table_offset: u32,
        bounds_table_offset: u32,
        palette_offset: u32,
        properties: u32,
        width: i32,
        height: i32,
        anchor_x: i32,
        anchor_y: i32,
    ) -> (r: Self)
        ensures
            r == (SLPFrameInfoData {
                cmd_table_offset,
                bounds_table_offset,
                palette_offset,
                properties,
                width,
                height,
                anchor_x,
                anchor_y,
            }),
    {
        Self {
            cmd_table_offset,
            bounds_table_offset,
            palette_offset,
            properties,
            width,
            height,
            anchor_x,
            anchor_y,
        }
    }
}

impl UnpackFixedSize for SLPFrameInfoData {
    open spec fn spec_can_unpack(b: Seq<u8>, offset: int) -> bool {
        offset + 32 <= b.len()
    }

    open spec fn spec_unpacked(b: Seq<u8>, offset: int, v: Self) -> bool {
        v == spec_frame_info_data_at(b, offset)
    }

    open spec fn spec_unpack_err(b: Seq<u8>, offset: int) -> SLPError {
        SLPError::TruncatedInput { offset: offset as u64 }
    }

    fn from_buffer(buffer: &[u8], offset: usize) -> (r: Result<Self, SLPError>) {
        if buffer.len() < 32 || offset > buffer.len() - 32 {
            return Err(SLPError::TruncatedInput { offset: offset as u64 });
        }
        let cmd_table_offset = read_u32_le(buffer, offset);
        let bounds_table_offset = read_u32_le(buffer, offset + 4);
        let palette_offset = read_u32_le(buffer, offset + 8);
        let properties = read_u32_le(buffer, offset + 12);
        let width = read_i32_le(buffer, offset + 16);
        let height = read_i32_le(buffer, offset + 20);
        let anchor_x = read_i32_le(buffer, offset + 24);
        let anchor_y = read_i32_le(buffer, offset + 28);

        Ok(
            Self::new(
                cmd_table_offset,
                bounds_table_offset,
                palette_offset,
                properties,
                width,
                height,
                anchor_x,
                anchor_y,
            ),
        )
    }

    fn from_bytes(bytes: &[u8]) -> (r: Result<Self, SLPError>) {
        Self::from_buffer(bytes, 0)
    }
}

/// Frame info in an SLP file.
pub struct SLPFrameInfo {
    /// Frame info data.
    pub data: SLPFrameInfoData,
    /// Frame type.
    pub frame_type: SLPFrameType,
    /// SLP version.
    pub slp_version: SLPVersion,
}

impl SLPFrameInfo {
    /// Create a new SLP frame info.
    pub fn new(
        cmd_table_offset: u32,
        bounds_table_offset: u32,
        palette_offset: u32,
        properties: u32,
        width: i32,
        height: i32,
        anchor_x: i32,
        anchor_y: i32,
        frame_type: SLPFrameType,
        slp_version: SLPVersion,
    ) -> (r: Self)
        ensures
            r.data == (SLPFrameInfoData {
                cmd_table_offset,
                bounds_table_offset,
                palette_offset,
                properties,
                width,
                height,
                anchor_x,
                anchor_y,
            }),
            r.frame_type == frame_type,
            r.slp_version == slp_version,
    {
        Self {
            data: SLPFrameInfoData {
                cmd_table_offset,
                bounds_table_offset,
                palette_offset,
                properties,
                width,
                height,
                anchor_x,
                anchor_y,
            },
            frame_type,
            slp_version,
        }
    }

    /// Create a new SLP frame info from existing frame info data.
    pub fn from_data(
        data: SLPFrameInfoData,
        frame_type: SLPFrameType,
        slp_version: SLPVersion,
    ) -> (r: Self)
        ensures
            r.data == data,
            r.frame_type == frame_type,
            r.slp_version == slp_version,
    {
        Self { data, frame_type, slp_version }
    }
}

} // verus!
