use slutils::slp::error::SLPError;
use slutils::slp::frame::SLPFrame;
use slutils::slp::row_bound::SLPRowBound;
use slutils::slp::unpack::UnpackFrameData;
use slutils::slp::frame_data::SLPFrameBound;
use slutils::slp::frame_data::SLPFrameData;
use slutils::slp::header::SLP4HeaderData;
use slutils::slp::header::SLPHeader;
use slutils::slp::pixel::PalettePixel;
use slutils::slp::pixel::SLPPixelType;
use slutils::slp::unpack::UnpackFixedSize;

/// The raw bounds record keeps sentinel values as they are.
#[test]
fn frame_bound_raw_fields() {
    let bound = SLPFrameBound::from_bytes(&[0x00, 0x80, 0x05, 0x00]).unwrap();
    assert_eq!(bound.left, 0x8000);
    assert_eq!(bound.right, 5);

    let r = SLPFrameBound::from_bytes(&[1, 2]);
    assert_eq!(r.err().unwrap(), SLPError::TruncatedInput { offset: 0 });

    let bound = SLPFrameBound::new(4, 9);
    assert_eq!((bound.left, bound.right), (4, 9));
}

/// Frame data keeps its tables and rows.
#[test]
fn frame_data_new() {
    let rows = vec![vec![PalettePixel::new(SLPPixelType::Palette, 1)]];
    let data = SLPFrameData::new(vec![SLPFrameBound::new(1, 2)], vec![64], rows);
    assert_eq!(data.bounds_table.len(), 1);
    assert_eq!(data.cmd_table, vec![64]);
    assert_eq!(data.row_data.len(), 1);
}

/// Header constructors keep their fields.
#[test]
fn header_new() {
    let header = SLPHeader::new(*b"2.0N", 3, [0u8; 24]);
    assert_eq!(header.get_version(), "2.0N");
    assert_eq!(header.get_num_frames(), 3);
}

/// The v4.X header record keeps its fields.
#[test]
fn slp4_header_new() {
    let header = SLP4HeaderData::new(*b"4.0X", 2, 1, 8, 4, 7, 64, 128, [0u8; 8]);
    assert_eq!(header.version, *b"4.0X");
    assert_eq!(header.num_frames, 2);
    assert_eq!(header.frame_type, 1);
    assert_eq!(header.num_directions, 8);
    assert_eq!(header.frames_per_direction, 4);
    assert_eq!(header.palette_id, 7);
    assert_eq!(header.offset_main, 64);
    assert_eq!(header.offset_secondary, 128);
    assert_eq!(header.pad, [0u8; 8]);
}

/// A fully transparent row reads no command bytes and spans the whole width.
#[test]
fn decode_full_transparent_row() {
    let buffer: Vec<u8> = vec![];
    let bounds = SLPRowBound::new(0, 0, true);
    let row = SLPFrame::decode_row(&buffer, &bounds, 99, 5).unwrap();
    assert_eq!(row, vec![PalettePixel::new(SLPPixelType::Transparent, 0); 5]);
}

/// Padding that exceeds the declared width is a row overrun.
#[test]
fn decode_row_padding_too_wide() {
    let buffer: Vec<u8> = vec![0x0F];
    let bounds = SLPRowBound::new(3, 3, false);
    let r = SLPFrame::decode_row(&buffer, &bounds, 0, 5);
    assert_eq!(r.err().unwrap(), SLPError::RowOverrun { offset: 0 });
}
