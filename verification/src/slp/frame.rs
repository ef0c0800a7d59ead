use std::collections::HashMap;
use vstd::prelude::*;

use crate::slp::cmds::decode_row_commands;
use crate::slp::cmds::lemma_run_cmds_success_len;
use crate::slp::cmds::push_repeat;
use crate::slp::cmds::spec_error_for;
use crate::slp::cmds::spec_repeat;
use crate::slp::cmds::spec_row_cmds_result;
use crate::slp::cmds::spec_run_cmds;
use crate::slp::cmds::RowOutcome;
use crate::slp::error::SLPError;
use crate::slp::error::SLPFrameError;
use crate::slp::frame_info::SLPFrameInfo;
use crate::slp::frame_info::SLPFrameInfoData;
use crate::slp::pixel::PalettePixel;
use crate::slp::pixel::spec_pixel_rgba;
use crate::slp::pixel::SLPPixelType;
use crate::slp::read::le32_at;
use crate::slp::read::read_u32_at;
use crate::slp::row_bound::spec_row_bound_at;
use crate::slp::row_bound::SLPRowBound;
use crate::slp::row_bound::SLPRowBoundData;
use crate::slp::types::SLPRowOffset;
use crate::slp::unpack::UnpackFixedSize;
use crate::slp::unpack::UnpackFrameData;
use crate::util::matrix::Matrix2D;
use crate::util::pixel::RGBAConvertible;

verus! {

/// SLP frame data.
pub struct SLPFrameData {
    /// Bounds table data.
    pub bounds_table: Vec<SLPRowBoundData>,
    /// Command table.
    pub cmd_table: Vec<SLPRowOffset>,
    /// Row commands data.
    pub row_data: Vec<Vec<u8>>,
}

/// SLP frame.
pub struct SLPFrame<T> {
    /// Frame data.
    pub data: Option<SLPFrameData>,
    /// Bounds table.
    pub bounds_table: Vec<SLPRowBound>,
    /// Command table.
    pub cmd_table: Vec<SLPRowOffset>,
    /// Pixels in the frame.
    pub pixels: Vec<Vec<T>>,
}

impl SLPFrame<PalettePixel> {
    /// Create a new SLP frame.
    pub fn new(
        bounds_table: Vec<SLPRowBound>,
        cmd_table: Vec<SLPRowOffset>,
        row_data: Vec<Vec<PalettePixel>>,
    ) -> (r: Self)
        ensures
            r.data is None,
            r.bounds_table == bounds_table,
            r.cmd_table == cmd_table,
            r.pixels == row_data,
    {
        Self { data: None, bounds_table, cmd_table, pixels: row_data }
    }
}

/// The pixels of one whole row: a fully transparent row is `width`
/// transparent pixels; otherwise the left padding, then the pixels of the
/// row's command stream, then the right padding. Padding that already
/// exceeds the row width is an overrun.
pub open spec fn spec_row_pixels(b: Seq<u8>, bound: SLPRowBound, off: int, width: int) -> RowOutcome {
    if bound.full_row {
        RowOutcome::Pixels { pixels: spec_repeat(SLPPixelType::Transparent, 0, width), end: off }
    } else if bound.data.left + bound.data.right > width {
        RowOutcome::Overrun { offset: off }
    } else {
        let left = bound.data.left as int;
        let right = bound.data.right as int;
        match spec_run_cmds(b, off, 0, width - left - right) {
            RowOutcome::Pixels { pixels, end } => RowOutcome::Pixels {
                pixels: spec_repeat(SLPPixelType::Transparent, 0, left) + pixels + spec_repeat(
                    SLPPixelType::Transparent,
                    0,
                    right,
                ),
                end,
            },
            o => o,
        }
    }
}

/// Whether a table of `height` four-byte records starting at `off` lies
/// inside the buffer.
pub open spec fn spec_table_fits(b: Seq<u8>, off: int, height: int) -> bool {
    height <= 0 || off + 4 * height <= b.len()
}

/// Whether the four-byte record of row `i` in a table at `off` lies inside
/// the buffer.
pub open spec fn spec_record_fits(b: Seq<u8>, off: int, i: int) -> bool {
    off + 4 * i + 4 <= b.len()
}

/// The row bounds table: one record per scanline, stride four bytes.
pub open spec fn spec_bounds_table(b: Seq<u8>, off: int, height: int) -> Seq<SLPRowBound> {
    Seq::new(
        if height <= 0 {
            0
        } else {
            height as nat
        },
        |j: int| spec_row_bound_at(b, off + 4 * j),
    )
}

/// The row command offset table: one offset per scanline, stride four bytes.
pub open spec fn spec_cmd_table(b: Seq<u8>, off: int, height: int) -> Seq<u32> {
    Seq::new(
        if height <= 0 {
            0
        } else {
            height as nat
        },
        |j: int| le32_at(b, off + 4 * j) as u32,
    )
}

/// The error reported when a table read runs past the buffer: the first row
/// whose record does not fit, with the record's absolute offset.
pub open spec fn spec_table_err(b: Seq<u8>, off: int, height: int, e: SLPFrameError) -> bool {
    &&& 0 <= e.row < height
    &&& !spec_record_fits(b, off, e.row as int)
    &&& (forall|i: int| 0 <= i < e.row ==> #[trigger] spec_record_fits(b, off, i))
    &&& e.error == (SLPError::TruncatedInput { offset: (off + 4 * e.row) as u64 })
}

/// Every row of `rows` is the successful decode of its command stream.
pub open spec fn spec_frame_rows_ok(
    b: Seq<u8>,
    bounds: Seq<SLPRowBound>,
    cmds: Seq<u32>,
    width: int,
    rows: Seq<Vec<PalettePixel>>,
) -> bool {
    forall|j: int|
        0 <= j < rows.len() ==> ((#[trigger] spec_row_pixels(b, bounds[j], cmds[j] as int, width))
        matches RowOutcome::Pixels { pixels, .. } && rows[j]@ == pixels)
}

/// The error reported when decoding the rows of a frame fails: the first row
/// whose stream is malformed, with that row's typed error.
pub open spec fn spec_frame_rows_err(
    b: Seq<u8>,
    bounds: Seq<SLPRowBound>,
    cmds: Seq<u32>,
    width: int,
    height: int,
    e: SLPFrameError,
) -> bool {
    &&& 0 <= e.row < height
    &&& !(spec_row_pixels(b, bounds[e.row as int], cmds[e.row as int] as int, width) matches
        RowOutcome::Pixels { .. })
    &&& e.error == spec_error_for(
        b,
        spec_row_pixels(b, bounds[e.row as int], cmds[e.row as int] as int, width),
    )
    &&& (forall|j: int|
        0 <= j < e.row ==> (#[trigger] spec_row_pixels(b, bounds[j], cmds[j] as int, width))
            matches RowOutcome::Pixels { .. })
}

/// A fully decoded frame: both tables fit and match the buffer, and every
/// row of the pixel grid is the successful decode of its command stream.
pub open spec fn spec_frame_ok(b: Seq<u8>, fi: SLPFrameInfoData, f: SLPFrame<PalettePixel>) -> bool {
    let h = fi.height as int;
    &&& f.data is None
    &&& spec_table_fits(b, fi.bounds_table_offset as int, h)
    &&& spec_table_fits(b, fi.cmd_table_offset as int, h)
    &&& f.bounds_table@ == spec_bounds_table(b, fi.bounds_table_offset as int, h)
    &&& f.cmd_table@ == spec_cmd_table(b, fi.cmd_table_offset as int, h)
    &&& (h > 0 ==> fi.width >= 0)
    &&& f.pixels@.len() == (if h <= 0 {
        0int
    } else {
        h
    })
    &&& spec_frame_rows_ok(b, f.bounds_table@, f.cmd_table@, fi.width as int, f.pixels@)
}

/// The conditions under which a frame decodes at all: its tables fit, its
/// dimensions are not negative, and every row's command stream is well
/// formed.
pub open spec fn spec_frame_decodes(b: Seq<u8>, fi: SLPFrameInfoData) -> bool {
    let h = fi.height as int;
    &&& spec_table_fits(b, fi.bounds_table_offset as int, h)
    &&& spec_table_fits(b, fi.cmd_table_offset as int, h)
    &&& (h > 0 ==> fi.width >= 0)
    &&& (forall|j: int|
        0 <= j < h ==> (#[trigger] spec_row_pixels(
            b,
            spec_bounds_table(b, fi.bounds_table_offset as int, h)[j],
            spec_cmd_table(b, fi.cmd_table_offset as int, h)[j] as int,
            fi.width as int,
        )) matches RowOutcome::Pixels { .. })
}

/// The error a failing frame decode reports: a truncated bounds table, else
/// a truncated command table, else negative dimensions, else the first row
/// whose command stream is malformed.
pub open spec fn spec_frame_unpack_err(b: Seq<u8>, fi: SLPFrameInfoData, e: SLPFrameError) -> bool {
    let h = fi.height as int;
    let boff = fi.bounds_table_offset as int;
    let coff = fi.cmd_table_offset as int;
    if !spec_table_fits(b, boff, h) {
        spec_table_err(b, boff, h, e)
    } else if !spec_table_fits(b, coff, h) {
        spec_table_err(b, coff, h, e)
    } else if h > 0 && fi.width < 0 {
        e == (SLPFrameError {
            row: 0,
            error: SLPError::InvalidDimensions { width: fi.width, height: fi.height },
        })
    } else {
        spec_frame_rows_err(
            b,
            spec_bounds_table(b, boff, h),
            spec_cmd_table(b, coff, h),
            fi.width as int,
            h,
            e,
        )
    }
}

/// A frame that decoded successfully meets every condition under which a
/// frame decodes.
pub proof fn lemma_frame_ok_decodes(b: Seq<u8>, fi: SLPFrameInfoData, f: SLPFrame<PalettePixel>)
    requires
        spec_frame_ok(b, fi, f),
    ensures
        spec_frame_decodes(b, fi),
{
    let h = fi.height as int;
    let bounds = spec_bounds_table(b, fi.bounds_table_offset as int, h);
    let cmds = spec_cmd_table(b, fi.cmd_table_offset as int, h);
    assert forall|j: int| 0 <= j < h implies (#[trigger] spec_row_pixels(
        b,
        bounds[j],
        cmds[j] as int,
        fi.width as int,
    )) matches RowOutcome::Pixels { .. } by {
        assert(spec_row_pixels(b, f.bounds_table@[j], f.cmd_table@[j] as int, fi.width as int)
            matches RowOutcome::Pixels { pixels, .. } && f.pixels@[j]@ == pixels);
    }
}

impl UnpackFrameData<PalettePixel> for SLPFrame<PalettePixel> {
    fn from_buffer(buffer: &[u8], frame_info: &SLPFrameInfo) -> (r: Result<Self, SLPFrameError>)
        ensures
            match r {
                Ok(f) => spec_frame_ok(buffer@, frame_info.data, f) && spec_frame_decodes(
                    buffer@,
                    frame_info.data,
                ),
                Err(e) => !spec_frame_decodes(buffer@, frame_info.data) && spec_frame_unpack_err(
                    buffer@,
                    frame_info.data,
                    e,
                ),
            },
    {
        let bounds_table = match Self::decode_bounds_table(buffer, frame_info) {
            Ok(t) => t,
            Err(e) => {
                return Err(e);
            },
        };
        let cmd_table = match Self::decode_cmd_table(buffer, frame_info) {
            Ok(t) => t,
            Err(e) => {
                return Err(e);
            },
        };
        let row_data = match Self::decode_frame(buffer, frame_info, &bounds_table, &cmd_table) {
            Ok(t) => t,
            Err(e) => {
                return Err(e);
            },
        };

        Ok(Self::new(bounds_table, cmd_table, row_data))
    }

    #[verifier::loop_isolation(false)]
    fn decode_bounds_table(buffer: &[u8], frame_info: &SLPFrameInfo) -> (r: Result<
        Vec<SLPRowBound>,
        SLPFrameError,
    >)
        ensures
            match r {
                Ok(t) => spec_table_fits(
                    buffer@,
                    frame_info.data.bounds_table_offset as int,
                    frame_info.data.height as int,
                ) && t@ == spec_bounds_table(
                    buffer@,
                    frame_info.data.bounds_table_offset as int,
                    frame_info.data.height as int,
                ),
                Err(e) => !spec_table_fits(
                    buffer@,
                    frame_info.data.bounds_table_offset as int,
                    frame_info.data.height as int,
                ) && spec_table_err(
                    buffer@,
                    frame_info.data.bounds_table_offset as int,
                    frame_info.data.height as int,
                    e,
                ),
            },
    {
        let ghost b = buffer@;
        let ghost off = frame_info.data.bounds_table_offset as int;
        let ghost h = frame_info.data.height as int;
        let blen: usize = buffer.len();

        let mut bounds_table = Vec::<SLPRowBound>::new();
        if frame_info.data.height <= 0 {
            proof {
                assert(bounds_table@ =~= spec_bounds_table(b, off, h));
            }
            return Ok(bounds_table);
        }
        let height: usize = frame_info.data.height as usize;
        let table_off: u64 = frame_info.data.bounds_table_offset as u64;

        let mut j: usize = 0;
        while j < height
            invariant
                j <= height,
                height == h,
                h > 0,
                table_off == off,
                blen == b.len(),
                b == buffer@,
                bounds_table@.len() == j,
                forall|i: int| 0 <= i < j ==> #[trigger] spec_record_fits(b, off, i),
                forall|i: int|
                    0 <= i < j ==> bounds_table@[i] == #[trigger] spec_row_bound_at(
                        b,
                        off + 4 * i,
                    ),
            decreases height - j,
        {
            let record_off: u64 = table_off + 4u64 * (j as u64);
            if record_off + 4u64 > blen as u64 {
                return Err(
                    SLPFrameError {
                        row: j,
                        error: SLPError::TruncatedInput { offset: record_off },
                    },
                );
            }
            let record_off_usize: usize = record_off as usize;
            let bound = match SLPRowBound::from_buffer(buffer, record_off_usize) {
                Ok(v) => v,
                Err(e) => {
                    proof {
                        assert(false);
                    }
                    return Err(SLPFrameError { row: j, error: e });
                },
            };
            bounds_table.push(bound);
            j = j + 1;
        }
        proof {
            assert(spec_record_fits(b, off, h - 1));
            assert(bounds_table@ =~= spec_bounds_table(b, off, h));
        }
        Ok(bounds_table)
    }

    #[verifier::loop_isolation(false)]
    fn decode_cmd_table(buffer: &[u8], frame_info: &SLPFrameInfo) -> (r: Result<
        Vec<u32>,
        SLPFrameError,
    >)
        ensures
            match r {
                Ok(t) => spec_table_fits(
                    buffer@,
                    frame_info.data.cmd_table_offset as int,
                    frame_info.data.height as int,
                ) && t@ == spec_cmd_table(
                    buffer@,
                    frame_info.data.cmd_table_offset as int,
                    frame_info.data.height as int,
                ),
                Err(e) => !spec_table_fits(
                    buffer@,
                    frame_info.data.cmd_table_offset as int,
                    frame_info.data.height as int,
                ) && spec_table_err(
                    buffer@,
                    frame_info.data.cmd_table_offset as int,
                    frame_info.data.height as int,
                    e,
                ),
            },
    {
        let ghost b = buffer@;
        let ghost off = frame_info.data.cmd_table_offset as int;
        let ghost h = frame_info.data.height as int;
        let blen: usize = buffer.len();

        let mut row_offsets = Vec::<u32>::new();
        if frame_info.data.height <= 0 {
            proof {
                assert(row_offsets@ =~= spec_cmd_table(b, off, h));
            }
            return Ok(row_offsets);
        }
        let height: usize = frame_info.data.height as usize;
        let table_off: u64 = frame_info.data.cmd_table_offset as u64;

        let mut j: usize = 0;
        while j < height
            invariant
                j <= height,
                height == h,
                h > 0,
                table_off == off,
                blen == b.len(),
                b == buffer@,
                row_offsets@.len() == j,
                forall|i: int| 0 <= i < j ==> #[trigger] spec_record_fits(b, off, i),
                forall|i: int|
                    0 <= i < j ==> row_offsets@[i] == #[trigger] (le32_at(b, off + 4 * i) as u32),
            decreases height - j,
        {
            let record_off: u64 = table_off + 4u64 * (j as u64);
            if record_off + 4u64 > blen as u64 {
                return Err(
                    SLPFrameError {
                        row: j,
                        error: SLPError::TruncatedInput { offset: record_off },
                    },
                );
            }
            let record_off_usize: usize = record_off as usize;
            let row = read_u32_at(buffer, record_off_usize);
            row_offsets.push(row);
            j = j + 1;
        }
        proof {
            assert(spec_record_fits(b, off, h - 1));
            assert(row_offsets@ =~= spec_cmd_table(b, off, h));
        }
        Ok(row_offsets)
    }

    #[verifier::loop_isolation(false)]
    fn decode_frame(
        buffer: &[u8],
        frame_info: &SLPFrameInfo,
        bounds_table: &Vec<SLPRowBound>,
        cmd_table: &Vec<u32>,
    ) -> (r: Result<Vec<Vec<PalettePixel>>, SLPFrameError>)
        ensures
            match r {
                Ok(rows) => {
                    &&& frame_info.data.height > 0 ==> frame_info.data.width >= 0
                    &&& rows@.len() == (if frame_info.data.height <= 0 {
                        0int
                    } else {
                        frame_info.data.height as int
                    })
                    &&& spec_frame_rows_ok(
                        buffer@,
                        bounds_table@,
                        cmd_table@,
                        frame_info.data.width as int,
                        rows@,
                    )
                },
                Err(e) => {
                    &&& frame_info.data.height > 0
                    &&& (frame_info.data.width < 0 ==> e.row == 0 && e.error
                        == (SLPError::InvalidDimensions {
                        width: frame_info.data.width,
                        height: frame_info.data.height,
                    }))
                    &&& (frame_info.data.width >= 0 ==> spec_frame_rows_err(
                        buffer@,
                        bounds_table@,
                        cmd_table@,
                        frame_info.data.width as int,
                        frame_info.data.height as int,
                        e,
                    ))
                },
            },
    {
        let ghost b = buffer@;
        let ghost w = frame_info.data.width as int;
        let ghost h = frame_info.data.height as int;

        let mut row_data = Vec::<Vec<PalettePixel>>::new();
        if frame_info.data.height <= 0 {
            return Ok(row_data);
        }
        if frame_info.data.width < 0 {
            return Err(
                SLPFrameError {
                    row: 0,
                    error: SLPError::InvalidDimensions {
                        width: frame_info.data.width,
                        height: frame_info.data.height,
                    },
                },
            );
        }
        let height: usize = frame_info.data.height as usize;
        let width: usize = frame_info.data.width as usize;

        let mut i: usize = 0;
        while i < height
            invariant
                i <= height,
                height == h,
                h > 0,
                width == w,
                b == buffer@,
                bounds_table@.len() >= h,
                cmd_table@.len() >= h,
                row_data@.len() == i,
                forall|j: int|
                    0 <= j < i ==> ((#[trigger] spec_row_pixels(
                        b,
                        bounds_table@[j],
                        cmd_table@[j] as int,
                        w,
                    )) matches RowOutcome::Pixels { pixels, .. } && row_data@[j]@ == pixels),
            decreases height - i,
        {
            let row_offset: u32 = cmd_table[i];
            let bounds: &SLPRowBound = &bounds_table[i];

            let row = match Self::decode_row(buffer, bounds, row_offset as usize, width) {
                Ok(v) => v,
                Err(e) => {
                    return Err(SLPFrameError { row: i, error: e });
                },
            };
            row_data.push(row);
            i = i + 1;
        }

        Ok(row_data)
    }

    fn decode_row(
        buffer: &[u8],
        bounds: &SLPRowBound,
        first_cmd_offset: usize,
        expected_size: usize,
    ) -> (r: Result<Vec<PalettePixel>, SLPError>)
        ensures
            match spec_row_pixels(buffer@, *bounds, first_cmd_offset as int, expected_size as int) {
                RowOutcome::Pixels { pixels, .. } => r matches Ok(v) && v@ == pixels && v@.len()
                    == expected_size,
                o => r matches Err(e) && e == spec_error_for(buffer@, o),
            },
    {
        let ghost b = buffer@;
        let ghost off = first_cmd_offset as int;
        let ghost w = expected_size as int;

        let mut row = Vec::<PalettePixel>::new();

        if bounds.full_row {
            push_repeat(&mut row, SLPPixelType::Transparent, 0, expected_size);
            proof {
                assert(row@ =~= spec_repeat(SLPPixelType::Transparent, 0, w));
            }
            return Ok(row);
        }

        let left: usize = bounds.get_left() as usize;
        let right: usize = bounds.get_right() as usize;
        if left + right > expected_size {
            return Err(SLPError::RowOverrun { offset: first_cmd_offset as u64 });
        }

        push_repeat(&mut row, SLPPixelType::Transparent, 0, left);

        let (mut color_cmds, _end) = match Self::decode_row_cmds(
            buffer,
            first_cmd_offset,
            expected_size - (left + right),
        ) {
            Ok(v) => v,
            Err(e) => {
                return Err(e);
            },
        };
        proof {
            lemma_run_cmds_success_len(b, off, 0, w - left - right);
        }
        row.append(&mut color_cmds);

        push_repeat(&mut row, SLPPixelType::Transparent, 0, right);

        proof {
            match spec_run_cmds(b, off, 0, w - left - right) {
                RowOutcome::Pixels { pixels, .. } => {
                    assert(row@ =~= spec_repeat(SLPPixelType::Transparent, 0, left as int) + pixels
                        + spec_repeat(SLPPixelType::Transparent, 0, right as int));
                },
                _ => {},
            }
        }
        Ok(row)
    }

    fn decode_row_cmds(buffer: &[u8], first_cmd_offset: usize, expected_size: usize) -> (r: Result<
        (Vec<PalettePixel>, usize),
        SLPError,
    >)
        ensures
            spec_row_cmds_result(buffer@, first_cmd_offset as int, expected_size as int, r),
    {
        decode_row_commands(buffer, first_cmd_offset, expected_size)
    }
}


/// The RGBA bytes of one row of pixels, four bytes per pixel in order.
pub open spec fn spec_row_rgba_bytes(row: Seq<PalettePixel>) -> Seq<u8>
    decreases row.len(),
{
    if row.len() == 0 {
        Seq::empty()
    } else {
        spec_row_rgba_bytes(row.drop_last()) + spec_pixel_rgba(row.last())
    }
}

/// The RGBA bytes of a whole pixel grid, row-major.
pub open spec fn spec_frame_rgba_bytes(rows: Seq<Vec<PalettePixel>>) -> Seq<u8>
    decreases rows.len(),
{
    if rows.len() == 0 {
        Seq::empty()
    } else {
        spec_frame_rgba_bytes(rows.drop_last()) + spec_row_rgba_bytes(rows.last()@)
    }
}

/// Cells strictly before row `i` come strictly before cell `(i, j)` in
/// row-major order.
proof fn lemma_row_major_lt(w: int, r: int, c: int, i: int, j: int)
    requires
        0 <= c < w,
        0 <= j,
        0 <= r < i,
    ensures
        r * w + c < i * w + j,
{
    assert(r * w + c < i * w + j) by (nonlinear_arith)
        requires
            0 <= c < w,
            0 <= j,
            0 <= r < i,
    ;
}

/// The row-major index of a cell lies inside the flat grid.
proof fn lemma_row_major_in_range(w: int, h: int, i: int, c: int)
    requires
        0 <= i < h,
        0 <= c < w,
    ensures
        0 <= i * w + c < h * w,
{
    assert(0 <= i * w + c < h * w) by (nonlinear_arith)
        requires
            0 <= i < h,
            0 <= c < w,
    ;
}

impl SLPFrame<PalettePixel> {
    /// Convert to a matrix of RGBA values, one cell per pixel.
    ///
    /// The grid must be rectangular and non-empty, as it is after a
    /// successful frame decode.
    #[verifier::loop_isolation(false)]
    pub fn to_rgba_matrix(&self) -> (m: Matrix2D<[u8; 4]>)
        requires
            self.pixels@.len() > 0,
            forall|i: int|
                0 <= i < self.pixels@.len() ==> (#[trigger] self.pixels@[i]@).len()
                    == self.pixels@[0]@.len(),
            self.pixels@.len() * self.pixels@[0]@.len() <= usize::MAX,
        ensures
            m.wf(),
            m.spec_rows() == self.pixels@.len(),
            m.spec_columns() == self.pixels@[0]@.len(),
            forall|i: int, j: int|
                0 <= i < self.pixels@.len() && 0 <= j < self.pixels@[0]@.len() ==> (#[trigger] m@[
                    i * self.pixels@[0]@.len() + j
                ])@ == spec_pixel_rgba(self.pixels@[i]@[j]),
    {
        let ghost w = self.pixels@[0]@.len() as int;
        let ghost h = self.pixels@.len() as int;
        let height: usize = self.pixels.len();
        let width: usize = self.pixels[0].len();
        let mut matrix = Matrix2D::<[u8; 4]>::zeros(height, width);

        let mut i: usize = 0;
        while i < height
            invariant
                i <= height,
                matrix.wf(),
                matrix.spec_rows() == h,
                matrix.spec_columns() == w,
                forall|r: int, c: int|
                    0 <= r < i && 0 <= c < w ==> (#[trigger] matrix@[r * w + c])@
                        == spec_pixel_rgba(self.pixels@[r]@[c]),
            decreases height - i,
        {
            let row: &Vec<PalettePixel> = &self.pixels[i];
            let mut j: usize = 0;
            while j < width
                invariant
                    i < height,
                    j <= width,
                    matrix.wf(),
                    matrix.spec_rows() == h,
                    matrix.spec_columns() == w,
                    row == &self.pixels@[i as int],
                    forall|r: int, c: int|
                        0 <= r < i && 0 <= c < w ==> (#[trigger] matrix@[r * w + c])@
                            == spec_pixel_rgba(self.pixels@[r]@[c]),
                    forall|c: int|
                        0 <= c < j ==> (#[trigger] matrix@[i as int * w + c])@
                            == spec_pixel_rgba(self.pixels@[i as int]@[c]),
                decreases width - j,
            {
                let rgba = row[j].to_rgba(HashMap::<usize, [u8; 4]>::new());
                let ghost m0 = matrix@;
                matrix.set(i, j, rgba);
                proof {
                    lemma_row_major_in_range(w, h, i as int, j as int);
                    assert forall|r: int, c: int| 0 <= r < i && 0 <= c < w implies (
                    #[trigger] matrix@[r * w + c])@ == spec_pixel_rgba(
                        self.pixels@[r]@[c],
                    ) by {
                        lemma_row_major_lt(w, r, c, i as int, j as int);
                        lemma_row_major_in_range(w, h, r, c);
                        assert(matrix@[r * w + c] == m0[r * w + c]);
                        assert(m0[r * w + c]@ == spec_pixel_rgba(
                            self.pixels@[r]@[c],
                        ));
                    }
                    assert forall|c: int| 0 <= c < j + 1 implies (#[trigger] matrix@[
                        i as int * w + c
                    ])@ == spec_pixel_rgba(self.pixels@[i as int]@[c]) by {
                        lemma_row_major_in_range(w, h, i as int, c);
                        if c < j {
                            assert(matrix@[i as int * w + c] == m0[i as int * w + c]);
                            assert(m0[i as int * w + c]@ == spec_pixel_rgba(
                                self.pixels@[i as int]@[c],
                            ));
                        } else {
                            assert(matrix@[i as int * w + c] == rgba);
                        }
                    }
                }
                j = j + 1;
            }
            i = i + 1;
        }
        matrix
    }

    /// Convert to a flat vector of RGBA bytes, four per pixel, row-major.
    #[verifier::loop_isolation(false)]
    pub fn to_rgba_bytes(&self) -> (r: Vec<u8>)
        ensures
            r@ == spec_frame_rgba_bytes(self.pixels@),
    {
        let mut bytes = Vec::<u8>::new();

        let mut i: usize = 0;
        while i < self.pixels.len()
            invariant
                i <= self.pixels@.len(),
                bytes@ == spec_frame_rgba_bytes(self.pixels@.subrange(0, i as int)),
            decreases self.pixels@.len() - i,
        {
            let row: &Vec<PalettePixel> = &self.pixels[i];
            let ghost outer = bytes@;
            let mut j: usize = 0;
            while j < row.len()
                invariant
                    i < self.pixels@.len(),
                    j <= row@.len(),
                    row == &self.pixels@[i as int],
                    bytes@ == outer + spec_row_rgba_bytes(row@.subrange(0, j as int)),
                decreases row@.len() - j,
            {
                let rgba = row[j].to_rgba(HashMap::<usize, [u8; 4]>::new());
                bytes.push(rgba[0]);
                bytes.push(rgba[1]);
                bytes.push(rgba[2]);
                bytes.push(rgba[3]);
                j = j + 1;
                proof {
                    let prefix = row@.subrange(0, j as int);
                    assert(prefix.drop_last() =~= row@.subrange(0, j - 1));
                    assert(bytes@ =~= outer + spec_row_rgba_bytes(prefix));
                }
            }
            i = i + 1;
            proof {
                let prefix = self.pixels@.subrange(0, i as int);
                assert(prefix.drop_last() =~= self.pixels@.subrange(0, i - 1));
                assert(row@.subrange(0, row@.len() as int) =~= row@);
                assert(bytes@ =~= spec_frame_rgba_bytes(prefix));
            }
        }
        proof {
            assert(self.pixels@.subrange(0, self.pixels@.len() as int) =~= self.pixels@);
        }
        bytes
    }
}


/// The total number of pixels over all rows of a grid.
pub open spec fn spec_pixel_count_sum(rows: Seq<Vec<PalettePixel>>) -> int
    decreases rows.len(),
{
    if rows.len() == 0 {
        0
    } else {
        spec_pixel_count_sum(rows.drop_last()) + rows.last()@.len()
    }
}

/// A successfully decoded row holds exactly `width` pixels.
pub proof fn lemma_row_pixels_len(b: Seq<u8>, bound: SLPRowBound, off: int, width: int)
    requires
        width >= 0,
    ensures
        spec_row_pixels(b, bound, off, width) matches RowOutcome::Pixels { pixels, .. }
            ==> pixels.len() == width,
{
    if !bound.full_row && bound.data.left + bound.data.right <= width {
        let left = bound.data.left as int;
        let right = bound.data.right as int;
        lemma_run_cmds_success_len(b, off, 0, width - left - right);
    }
}

/// The pixel count of a grid of uniform row length is rows times columns.
proof fn lemma_sum_uniform(rows: Seq<Vec<PalettePixel>>, w: int)
    requires
        forall|j: int| 0 <= j < rows.len() ==> (#[trigger] rows[j]@).len() == w,
    ensures
        spec_pixel_count_sum(rows) == w * rows.len(),
    decreases rows.len(),
{
    if rows.len() == 0 {
    } else {
        let front = rows.drop_last();
        assert(forall|j: int| 0 <= j < front.len() ==> (#[trigger] front[j]@).len() == w);
        lemma_sum_uniform(front, w);
        assert(rows.last()@.len() == w);
        assert(w * (rows.len() - 1) + w == w * rows.len()) by (nonlinear_arith);
    }
}

/// Law: a decoded frame holds exactly `width * height` pixels in all: the
/// per-row pixel counts of a frame that decoded successfully sum to the
/// frame's width times its height (and a frame of non-positive height holds
/// none).
pub proof fn lemma_frame_pixel_total(b: Seq<u8>, fi: SLPFrameInfoData, f: SLPFrame<PalettePixel>)
    requires
        spec_frame_ok(b, fi, f),
    ensures
        spec_pixel_count_sum(f.pixels@) == (if fi.height <= 0 {
            0int
        } else {
            fi.width as int * fi.height as int
        }),
{
    let h = fi.height as int;
    let w = fi.width as int;
    if h <= 0 {
        assert(f.pixels@.len() == 0);
    } else {
        assert forall|j: int| 0 <= j < f.pixels@.len() implies (#[trigger] f.pixels@[j]@).len()
            == w by {
            assert(spec_row_pixels(b, f.bounds_table@[j], f.cmd_table@[j] as int, w) matches
                RowOutcome::Pixels { pixels, .. } && f.pixels@[j]@ == pixels);
            lemma_row_pixels_len(b, f.bounds_table@[j], f.cmd_table@[j] as int, w);
        }
        lemma_sum_uniform(f.pixels@, w);
        assert(w * h == fi.width as int * fi.height as int);
    }
}

} // verus!
