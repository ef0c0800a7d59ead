use slutils::slp::error::SLPError;
use slutils::slp::error::SLPParseError;
use slutils::slp::frame::SLPFrame;
use slutils::slp::frame_info::SLPFrameInfo;
use slutils::slp::frame_info::SLPFrameInfoData;
use slutils::slp::frame_info::SLPFrameType;
use slutils::slp::header::SLPHeaderData;
use slutils::slp::pixel::PalettePixel;
use slutils::slp::pixel::SLPPixelType;
use slutils::slp::row_bound::SLPRowBound;
use slutils::slp::slp::parse_slp;
use slutils::slp::unpack::UnpackFixedSize;
use slutils::slp::unpack::UnpackFrameData;

fn px(pixel_type: SLPPixelType, index: u8) -> PalettePixel {
    PalettePixel { pixel_type, index }
}

/// A one-frame file: header, one metadata record, one bounds record, one
/// command offset, and one command stream of two lesser-draw pixels.
fn one_frame_file() -> Vec<u8> {
    let mut bytes = Vec::new();
    // header: version "2.0N", one frame, zeroed comment
    bytes.extend_from_slice(b"2.0N");
    bytes.extend_from_slice(&[1, 0, 0, 0]);
    bytes.extend_from_slice(&[0u8; 24]);
    // frame info at 32: cmd table at 68, bounds table at 64, width 4, height 1
    bytes.extend_from_slice(&[68, 0, 0, 0]);
    bytes.extend_from_slice(&[64, 0, 0, 0]);
    bytes.extend_from_slice(&[0, 0, 0, 0]);
    bytes.extend_from_slice(&[0, 0, 0, 0]);
    bytes.extend_from_slice(&[4, 0, 0, 0]);
    bytes.extend_from_slice(&[1, 0, 0, 0]);
    bytes.extend_from_slice(&[0, 0, 0, 0]);
    bytes.extend_from_slice(&[0, 0, 0, 0]);
    // bounds table at 64: left 1, right 1
    bytes.extend_from_slice(&[1, 0, 1, 0]);
    // command table at 68: the row's stream starts at 72
    bytes.extend_from_slice(&[72, 0, 0, 0]);
    // row commands at 72: lesser draw of two pixels, then end of row
    bytes.extend_from_slice(&[0x08, 0x05, 0x06, 0x0F]);
    bytes
}

/// End to end: the one-frame file decodes to the padded four-pixel row.
#[test]
fn parse_one_frame_file() {
    let file = parse_slp(one_frame_file()).unwrap();
    assert_eq!(file.header.get_version(), "2.0N");
    assert_eq!(file.header.get_num_frames(), 1);
    assert_eq!(file.header.get_comment(), "\0".repeat(24));
    assert_eq!(file.frame_infos.len(), 1);
    assert_eq!(file.frame_infos[0].data.width, 4);
    assert_eq!(file.frame_infos[0].data.height, 1);
    assert_eq!(file.frames.len(), 1);
    let frame = &file.frames[0];
    assert_eq!(frame.pixels.len(), 1);
    assert_eq!(
        frame.pixels[0],
        vec![
            px(SLPPixelType::Transparent, 0),
            px(SLPPixelType::Palette, 5),
            px(SLPPixelType::Palette, 6),
            px(SLPPixelType::Transparent, 0),
        ]
    );
}

/// Every row of every decoded frame holds exactly `width` pixels, so the
/// counts sum to width times height.
#[test]
fn decoded_frame_pixel_total() {
    let file = parse_slp(one_frame_file()).unwrap();
    let frame = &file.frames[0];
    let width = file.frame_infos[0].data.width as usize;
    let height = file.frame_infos[0].data.height as usize;
    let total: usize = frame.pixels.iter().map(|row| row.len()).sum();
    assert_eq!(total, width * height);
}

/// A buffer shorter than the header is rejected at the header.
#[test]
fn parse_short_header() {
    let r = parse_slp(vec![0u8; 10]);
    assert_eq!(
        r.err().unwrap(),
        SLPParseError::Header { error: SLPError::TruncatedInput { offset: 0 } }
    );
}

/// A header that declares more frames than the buffer holds is rejected at
/// the first missing metadata record.
#[test]
fn parse_missing_frame_info() {
    let mut bytes = Vec::new();
    bytes.extend_from_slice(b"2.0N");
    bytes.extend_from_slice(&[2, 0, 0, 0]);
    bytes.extend_from_slice(&[0u8; 24]);
    let r = parse_slp(bytes);
    assert_eq!(
        r.err().unwrap(),
        SLPParseError::FrameInfo { frame: 0, error: SLPError::TruncatedInput { offset: 32 } }
    );
}

/// A row stream that terminates before the row is full is surfaced as a row
/// overrun at the offending frame and row.
#[test]
fn parse_underfull_row() {
    let mut bytes = one_frame_file();
    // replace the row's stream with an immediate end-of-row byte
    bytes[72] = 0xFF;
    let r = parse_slp(bytes);
    assert_eq!(
        r.err().unwrap(),
        SLPParseError::Frame { frame: 0, row: 0, error: SLPError::RowOverrun { offset: 72 } }
    );
}

/// The header reader takes the version tag, frame count and comment from the
/// fixed 32-byte layout.
#[test]
fn header_from_bytes() {
    let mut bytes = vec![0x32, 0x2E, 0x30, 0x4E, 0x07, 0x01, 0, 0];
    bytes.extend_from_slice(&[9u8; 24]);
    let header = SLPHeaderData::from_bytes(&bytes).unwrap();
    assert_eq!(header.version, *b"2.0N");
    assert_eq!(header.num_frames, 0x107);
    assert_eq!(header.comment, [9u8; 24]);

    let r = SLPHeaderData::from_bytes(&[0u8; 31]);
    assert_eq!(r.err().unwrap(), SLPError::TruncatedInput { offset: 0 });
}

/// The frame info reader reads eight little-endian fields, the dimensions
/// and anchor point signed.
#[test]
fn frame_info_from_bytes() {
    let mut bytes = Vec::new();
    bytes.extend_from_slice(&[0x10, 0x20, 0x30, 0x40]);
    bytes.extend_from_slice(&[0x01, 0x00, 0x00, 0x00]);
    bytes.extend_from_slice(&[0x02, 0x00, 0x00, 0x00]);
    bytes.extend_from_slice(&[0x03, 0x00, 0x00, 0x00]);
    bytes.extend_from_slice(&[0xFF, 0xFF, 0xFF, 0xFF]);
    bytes.extend_from_slice(&[0x05, 0x00, 0x00, 0x00]);
    bytes.extend_from_slice(&[0xFE, 0xFF, 0xFF, 0xFF]);
    bytes.extend_from_slice(&[0x07, 0x00, 0x00, 0x00]);
    let info = SLPFrameInfoData::from_bytes(&bytes).unwrap();
    assert_eq!(info.cmd_table_offset, 0x40302010);
    assert_eq!(info.bounds_table_offset, 1);
    assert_eq!(info.palette_offset, 2);
    assert_eq!(info.properties, 3);
    assert_eq!(info.width, -1);
    assert_eq!(info.height, 5);
    assert_eq!(info.anchor_x, -2);
    assert_eq!(info.anchor_y, 7);
}

/// A frame that declares a negative width is rejected with a typed error.
#[test]
fn negative_width_rejected() {
    let info = SLPFrameInfo::new(0, 0, 0, 0, -4, 1, 0, 0, SLPFrameType::Main, *b"2.0N");
    let bounds = vec![SLPRowBound::new(0, 0, false)];
    let cmds = vec![0u32];
    let buffer = vec![0x0Fu8; 8];
    let r = SLPFrame::decode_frame(&buffer, &info, &bounds, &cmds);
    let e = r.err().unwrap();
    assert_eq!(e.row, 0);
    assert_eq!(e.error, SLPError::InvalidDimensions { width: -4, height: 1 });
}

/// A two-frame file: the first frame is one fully transparent sentinel row,
/// the second one drawn pixel.
fn two_frame_file(second_stream: &[u8]) -> Vec<u8> {
    let mut bytes = Vec::new();
    bytes.extend_from_slice(b"2.0N");
    bytes.extend_from_slice(&[2, 0, 0, 0]);
    bytes.extend_from_slice(&[0u8; 24]);
    // frame 0 at 32: bounds at 96, cmd table at 100, width 2, height 1
    bytes.extend_from_slice(&[100, 0, 0, 0]);
    bytes.extend_from_slice(&[96, 0, 0, 0]);
    bytes.extend_from_slice(&[0, 0, 0, 0]);
    bytes.extend_from_slice(&[0, 0, 0, 0]);
    bytes.extend_from_slice(&[2, 0, 0, 0]);
    bytes.extend_from_slice(&[1, 0, 0, 0]);
    bytes.extend_from_slice(&[0, 0, 0, 0]);
    bytes.extend_from_slice(&[0, 0, 0, 0]);
    // frame 1 at 64: bounds at 104, cmd table at 108, width 1, height 1
    bytes.extend_from_slice(&[108, 0, 0, 0]);
    bytes.extend_from_slice(&[104, 0, 0, 0]);
    bytes.extend_from_slice(&[0, 0, 0, 0]);
    bytes.extend_from_slice(&[0, 0, 0, 0]);
    bytes.extend_from_slice(&[1, 0, 0, 0]);
    bytes.extend_from_slice(&[1, 0, 0, 0]);
    bytes.extend_from_slice(&[0, 0, 0, 0]);
    bytes.extend_from_slice(&[0, 0, 0, 0]);
    // frame 0 bounds at 96: fully transparent sentinel
    bytes.extend_from_slice(&[0x00, 0x80, 0x00, 0x00]);
    // frame 0 command table at 100: unused for a sentinel row
    bytes.extend_from_slice(&[0, 0, 0, 0]);
    // frame 1 bounds at 104: no padding
    bytes.extend_from_slice(&[0, 0, 0, 0]);
    // frame 1 command table at 108: its stream starts at 112
    bytes.extend_from_slice(&[112, 0, 0, 0]);
    // frame 1 row commands at 112
    bytes.extend_from_slice(second_stream);
    bytes
}

/// A fully transparent sentinel row reads no command bytes, and both frames
/// decode to their own grids.
#[test]
fn parse_two_frame_file() {
    let file = parse_slp(two_frame_file(&[0x04, 0x09, 0x0F])).unwrap();
    assert_eq!(file.frames.len(), 2);
    assert_eq!(
        file.frames[0].pixels,
        vec![vec![px(SLPPixelType::Transparent, 0), px(SLPPixelType::Transparent, 0)]]
    );
    assert_eq!(file.frames[1].pixels, vec![vec![px(SLPPixelType::Palette, 9)]]);
}

/// A failure in a later frame is tagged with that frame's index.
#[test]
fn parse_error_tagged_with_frame() {
    let r = parse_slp(two_frame_file(&[0xBE]));
    assert_eq!(
        r.err().unwrap(),
        SLPParseError::Frame {
            frame: 1,
            row: 0,
            error: SLPError::UnknownExtendedCommand { cmd: 0xBE, offset: 112 },
        }
    );
}
