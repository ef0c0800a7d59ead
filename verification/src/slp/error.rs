use vstd::prelude::*;

verus! {

/// A local decoding failure.
///
/// Every fixed-size or table read that would run past the end of the input
/// buffer, and every malformed command stream, is surfaced as a typed error
/// instead of a panic. Offsets are absolute byte positions into the input
/// buffer; they are kept as `u64` so that an out-of-range table position can
/// be reported exactly even on targets where it does not fit a `usize`.
#[derive(Clone, Copy, Debug, PartialEq, Eq, Structural)]
pub enum SLPError {
    /// A read beginning at `offset` would run past the end of the buffer.
    TruncatedInput { offset: u64 },
    /// The command byte `cmd` at `offset` is not part of the instruction set.
    UnknownCommand { cmd: u8, offset: u64 },
    /// The extended command byte `cmd` at `offset` has an unrecognized high nibble.
    UnknownExtendedCommand { cmd: u8, offset: u64 },
    /// The row's command stream did not produce exactly the declared number of
    /// pixels; detected at buffer position `offset`.
    RowOverrun { offset: u64 },
    /// A frame declares a negative width or height.
    InvalidDimensions { width: i32, height: i32 },
}

/// A decoding failure inside one frame, tagged with the offending row.
#[derive(Clone, Copy, Debug, PartialEq, Eq, Structural)]
pub struct SLPFrameError {
    /// Index of the scanline whose decode failed.
    pub row: usize,
    /// The underlying failure.
    pub error: SLPError,
}

/// A failure while parsing a whole SLP file.
#[derive(Clone, Copy, Debug, PartialEq, Eq, Structural)]
pub enum SLPParseError {
    /// The fixed header could not be read.
    Header { error: SLPError },
    /// The metadata record of frame `frame` could not be read.
    FrameInfo { frame: usize, error: SLPError },
    /// Frame `frame` failed to decode at row `row`.
    Frame { frame: usize, row: usize, error: SLPError },
}

} // verus!
