use vstd::prelude::*;

use crate::slp::error::SLPError;
use crate::slp::error::SLPFrameError;
use crate::slp::frame_info::SLPFrameInfo;
use crate::slp::row_bound::SLPRowBound;

verus! {

/// Unpack a fixed size object in a file.
///
/// Each implementor states, as spec functions, when a record can be read at a
/// given offset, which value a successful read yields, and which error an
/// out-of-range read reports; the executable readers are proved against those
/// statements.
pub trait UnpackFixedSize: Sized {
    /// Whether a whole record lies inside `b` when read at `offset`.
    spec fn spec_can_unpack(b: Seq<u8>, offset: int) -> bool;

    /// The relation pinning down the record read at `offset` in `b`.
    spec fn spec_unpacked(b: Seq<u8>, offset: int, v: Self) -> bool;

    /// The error reported when the record cannot be read at `offset`.
    spec fn spec_unpack_err(b: Seq<u8>, offset: int) -> SLPError;

    /// Create a new object from an offset inside a buffer.
    ///
    /// The buffer can be the whole file for example.
    fn from_buffer(buffer: &[u8], offset: usize) -> (r: Result<Self, SLPError>)
        ensures
            match r {
                Ok(v) => Self::spec_can_unpack(buffer@, offset as int) && Self::spec_unpacked(
                    buffer@,
                    offset as int,
                    v,
                ),
                Err(e) => !Self::spec_can_unpack(buffer@, offset as int) && e
                    == Self::spec_unpack_err(buffer@, offset as int),
            },
    ;

    /// Create a new object from a slice of bytes.
    fn from_bytes(bytes: &[u8]) -> (r: Result<Self, SLPError>)
        ensures
            match r {
                Ok(v) => Self::spec_can_unpack(bytes@, 0) && Self::spec_unpacked(bytes@, 0, v),
                Err(e) => !Self::spec_can_unpack(bytes@, 0) && e == Self::spec_unpack_err(
                    bytes@,
                    0,
                ),
            },
    ;
}

/// Unpack a frame's data in a file.
///
/// The exact contracts are stated on the implementation for palette-indexed
/// frames, in terms of the row command interpreter's specification.
pub trait UnpackFrameData<T>: Sized {
    /// Create a new frame from a buffer. The buffer should be the whole file.
    /// Start offsets are read from the frame info.
    fn from_buffer(buffer: &[u8], frame_info: &SLPFrameInfo) -> Result<Self, SLPFrameError>;

    /// Decode the row bounds table: exactly `frame_info.data.height` bounds.
    fn decode_bounds_table(buffer: &[u8], frame_info: &SLPFrameInfo) -> Result<
        Vec<SLPRowBound>,
        SLPFrameError,
    >;

    /// Decode the command offsets table: exactly `frame_info.data.height` offsets.
    fn decode_cmd_table(buffer: &[u8], frame_info: &SLPFrameInfo) -> Result<
        Vec<u32>,
        SLPFrameError,
    >;

    /// Decode the draw commands of every row in the frame.
    ///
    /// Both tables must hold one entry per scanline.
    fn decode_frame(
        buffer: &[u8],
        frame_info: &SLPFrameInfo,
        bounds_table: &Vec<SLPRowBound>,
        cmd_table: &Vec<u32>,
    ) -> Result<Vec<Vec<T>>, SLPFrameError>
        requires
            frame_info.data.height as int <= bounds_table@.len(),
            frame_info.data.height as int <= cmd_table@.len(),
    ;

    /// Decode a single row in the frame, padding included.
    fn decode_row(
        buffer: &[u8],
        bounds: &SLPRowBound,
        first_cmd_offset: usize,
        expected_size: usize,
    ) -> Result<Vec<T>, SLPError>;

    /// Decode the commands for a single row, returning the pixels they emit
    /// and the position of the end-of-row marker.
    fn decode_row_cmds(buffer: &[u8], first_cmd_offset: usize, expected_size: usize) -> Result<
        (Vec<T>, usize),
        SLPError,
    >;
}

} // verus!
