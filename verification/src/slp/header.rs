use vstd::prelude::*;

use crate::slp::error::SLPError;
use crate::slp::read::ascii_to_string;
use crate::slp::read::le32_at;
use crate::slp::read::read_u32_le;
use crate::slp::types::SLPVersion;
use crate::slp::unpack::UnpackFixedSize;

verus! {

/// All bytes of `s` are ASCII.
pub open spec fn spec_all_ascii(s: Seq<u8>) -> bool {
    forall|i: int| 0 <= i < s.len() ==> s[i] < 0x80
}

/// The characters of `r` spell exactly the bytes of `s`.
pub open spec fn spec_spells(s: Seq<u8>, r: Seq<char>) -> bool {
    r.len() == s.len() && forall|i: int| 0 <= i < s.len() ==> r[i] == s[i] as char
}

/// Header data in an SLP file.
pub struct SLPHeaderData {
    /// Version string.
    pub version: SLPVersion,
    /// Number of frames.
    pub num_frames: u32,
    /// Comment string.
    pub comment: [u8; 24],
}

impl SLPHeaderData {
    /// Create a new SLP header.
    pub fn new(version: SLPVersion, num_frames: u32, comment: [u8; 24]) -> (r: Self)
        ensures
            r.version == version,
            r.num_frames == num_frames,
            r.comment == comment,
    {
        Self { version, num_frames, comment }
    }
}

impl UnpackFixedSize for SLPHeaderData {
    open spec fn spec_can_unpack(b: Seq<u8>, offset: int) -> bool {
        offset + 32 <= b.len()
    }

    open spec fn spec_unpacked(b: Seq<u8>, offset: int, v: Self) -> bool {
        &&& v.version@ == b.subrange(offset, offset + 4)
        &&& v.num_frames == le32_at(b, offset + 4)
        &&& v.comment@ == b.subrange(offset + 8, offset + 32)
    }

    open spec fn spec_unpack_err(b: Seq<u8>, offset: int) -> SLPError {
        SLPError::TruncatedInput { offset: offset as u64 }
    }

    fn from_buffer(buffer: &[u8], offset: usize) -> (r: Result<Self, SLPError>) {
        if buffer.len() < 32 || offset > buffer.len() - 32 {
            return Err(SLPError::TruncatedInput { offset: offset as u64 });
        }
        let version: SLPVersion = [
            buffer[offset],
            buffer[offset + 1],
            buffer[offset + 2],
            buffer[offset + 3],
        ];
        let num_frames = read_u32_le(buffer, offset + 4);
        let comment: [u8; 24] = [
            buffer[offset + 8],
            buffer[offset + 9],
            buffer[offset + 10],
            buffer[offset + 11],
            buffer[offset + 12],
            buffer[offset + 13],
            buffer[offset + 14],
            buffer[offset + 15],
            buffer[offset + 16],
            buffer[offset + 17],
            buffer[offset + 18],
            buffer[offset + 19],
            buffer[offset + 20],
            buffer[offset + 21],
            buffer[offset + 22],
            buffer[offset + 23],
            buffer[offset + 24],
            buffer[offset + 25],
            buffer[offset + 26],
            buffer[offset + 27],
            buffer[offset + 28],
            buffer[offset + 29],
            buffer[offset + 30],
            buffer[offset + 31],
        ];
        proof {
            assert(version@ =~= buffer@.subrange(offset as int, offset + 4));
            assert(comment@ =~= buffer@.subrange(offset + 8, offset + 32));
        }
        Ok(SLPHeaderData::new(version, num_frames, comment))
    }

    fn from_bytes(bytes: &[u8]) -> (r: Result<Self, SLPError>) {
        Self::from_buffer(bytes, 0)
    }
}

/// Header in an SLP file.
pub struct SLPHeader {
    /// Header data.
    pub data: SLPHeaderData,
}

impl SLPHeader {
    /// Create a new SLP header.
    pub fn new(version: SLPVersion, num_frames: u32, comment: [u8; 24]) -> (r: Self)
        ensures
            r.data.version == version,
            r.data.num_frames == num_frames,
            r.data.comment == comment,
    {
        Self { data: SLPHeaderData::new(version, num_frames, comment) }
    }

    /// Create a new SLP header from existing header data.
    pub fn from_data(data: SLPHeaderData) -> (r: Self)
        ensures
            r.data == data,
    {
        Self { data }
    }

    /// Get the version string.
    pub fn get_version(&self) -> (r: String)
        requires
            spec_all_ascii(self.data.version@),
        ensures
            spec_spells(self.data.version@, r@),
    {
        ascii_to_string(self.data.version.as_slice())
    }

    /// Get the number of frames.
    pub fn get_num_frames(&self) -> (r: u32)
        ensures
            r == self.data.num_frames,
    {
        self.data.num_frames
    }

    /// Get the comment string.
    pub fn get_comment(&self) -> (r: String)
        requires
            spec_all_ascii(self.data.comment@),
        ensures
            spec_spells(self.data.comment@, r@),
    {
        ascii_to_string(self.data.comment.as_slice())
    }
}

/// Header data of the v4.X SLP layout.
pub struct SLP4HeaderData {
    pub version: SLPVersion,
    pub num_frames: u16,
    pub frame_type: u16,
    pub num_directions: u16,
    pub frames_per_direction: u16,
    pub palette_id: u32,
    pub offset_main: u32,
    pub offset_secondary: u32,
    pub pad: [u8; 8],
}

impl SLP4HeaderData {
    /// Create a new v4.X SLP header record.
    pub fn new(
        version: SLPVersion,
        num_frames: u16,
        frame_type: u16,
        num_directions: u16,
        frames_per_direction: u16,
        palette_id: u32,
        offset_main: u32,
        offset_secondary: u32,
        pad: [u8; 8],
    ) -> (r: SLP4HeaderData)
        ensures
            r.version == version,
            r.num_frames == num_frames,
            r.frame_type == frame_type,
            r.num_directions == num_directions,
            r.frames_per_direction == frames_per_direction,
            r.palette_id == palette_id,
            r.offset_main == offset_main,
            r.offset_secondary == offset_secondary,
            r.pad == pad,
    {
        SLP4HeaderData {
            version,
            num_frames,
            frame_type,
            num_directions,
            frames_per_direction,
            palette_id,
            offset_main,
            offset_secondary,
            pad,
        }
    }
}

} // verus!
