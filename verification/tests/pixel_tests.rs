use std::collections::HashMap;

use slutils::slp::frame::SLPFrame;
use slutils::slp::pixel::PalettePixel;
use slutils::slp::pixel::RGBAPixel;
use slutils::slp::pixel::SLPPixelType;
use slutils::slp::row_bound::SLPRowBound;
use slutils::slp::row_bound::SLPRowBoundData;
use slutils::slp::unpack::UnpackFixedSize;
use slutils::util::pixel::RGBAConvertible;

fn px(pixel_type: SLPPixelType, index: u8) -> PalettePixel {
    PalettePixel::new(pixel_type, index)
}

/// A raw bounds field equal to 0x8000 marks the whole row transparent and
/// zeroes both counts, whatever the other field holds.
#[test]
fn row_bound_sentinel() {
    let bound = SLPRowBound::from_bytes(&[0x00, 0x80, 0x05, 0x00]).unwrap();
    assert!(bound.full_row);
    assert_eq!(bound.get_left(), 0);
    assert_eq!(bound.get_right(), 0);

    let bound = SLPRowBound::from_bytes(&[0x05, 0x00, 0x00, 0x80]).unwrap();
    assert!(bound.full_row);
    assert_eq!(bound.get_left(), 0);
    assert_eq!(bound.get_right(), 0);

    let bound = SLPRowBound::from_bytes(&[0x03, 0x00, 0x07, 0x00]).unwrap();
    assert!(!bound.full_row);
    assert_eq!(bound.get_left(), 3);
    assert_eq!(bound.get_right(), 7);
}

/// Bound constructors keep their fields.
#[test]
fn row_bound_constructors() {
    let data = SLPRowBoundData::new(2, 9);
    assert_eq!(data.left, 2);
    assert_eq!(data.right, 9);
    let bound = SLPRowBound::from_data(data, false);
    assert_eq!(bound.get_left(), 2);
    assert_eq!(bound.get_right(), 9);
    assert!(!bound.full_row);
}

/// Pixel constructors keep their fields.
#[test]
fn pixel_constructors() {
    let p = PalettePixel::new(SLPPixelType::Player, 11);
    assert_eq!(p.pixel_type, SLPPixelType::Player);
    assert_eq!(p.index, 11);

    let q = RGBAPixel::new(SLPPixelType::Palette, 1, 2, 3, 4);
    assert_eq!(q.pixel_type, SLPPixelType::Palette);
    assert_eq!((q.r, q.g, q.b, q.a), (1, 2, 3, 4));
}

/// The default RGBA resolution of each pixel kind.
#[test]
fn pixel_to_rgba() {
    let lookup = HashMap::new();
    assert_eq!(px(SLPPixelType::Palette, 9).to_rgba(lookup), [9, 9, 9, 255]);
    let lookup = HashMap::new();
    assert_eq!(px(SLPPixelType::Transparent, 0).to_rgba(lookup), [0, 0, 0, 0]);
    let lookup = HashMap::new();
    assert_eq!(px(SLPPixelType::Shadow, 0).to_rgba(lookup), [0, 0, 0, 100]);
    let lookup = HashMap::new();
    assert_eq!(px(SLPPixelType::Player, 5).to_rgba(lookup), [0, 5, 0, 254]);
    let lookup = HashMap::new();
    assert_eq!(px(SLPPixelType::Special1, 0).to_rgba(lookup), [0, 0, 0, 252]);
    let lookup = HashMap::new();
    assert_eq!(px(SLPPixelType::Special2, 0).to_rgba(lookup), [0, 0, 0, 250]);
}

/// The flat RGBA byte conversion walks the grid row-major, four bytes per
/// pixel.
#[test]
fn frame_to_rgba_bytes() {
    let rows = vec![vec![px(SLPPixelType::Transparent, 0), px(SLPPixelType::Palette, 9)]];
    let frame = SLPFrame::new(Vec::new(), Vec::new(), rows);
    assert_eq!(frame.to_rgba_bytes(), vec![0, 0, 0, 0, 9, 9, 9, 255]);
}

/// The RGBA matrix conversion keeps the grid's dimensions and cells.
#[test]
fn frame_to_rgba_matrix() {
    let rows = vec![
        vec![px(SLPPixelType::Palette, 1), px(SLPPixelType::Shadow, 0)],
        vec![px(SLPPixelType::Player, 2), px(SLPPixelType::Transparent, 0)],
    ];
    let frame = SLPFrame::new(Vec::new(), Vec::new(), rows);
    let matrix = frame.to_rgba_matrix();
    assert_eq!(matrix.get_size(), (2, 2));
    assert_eq!(*matrix.get(0, 0), [1, 1, 1, 255]);
    assert_eq!(*matrix.get(0, 1), [0, 0, 0, 100]);
    assert_eq!(*matrix.get(1, 0), [0, 2, 0, 254]);
    assert_eq!(*matrix.get(1, 1), [0, 0, 0, 0]);
}
