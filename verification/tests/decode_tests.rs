use slutils::slp::cmds::cmd_or_next;
use slutils::slp::cmds::decode_row_commands;
use slutils::slp::cmds::encode_row_commands;
use slutils::slp::error::SLPError;
use slutils::slp::pixel::PalettePixel;
use slutils::slp::pixel::SLPPixelType;

fn px(pixel_type: SLPPixelType, index: u8) -> PalettePixel {
    PalettePixel { pixel_type, index }
}

/// Count packed in the command: no extra byte is consumed.
#[test]
fn rule_r_packed_count() {
    let buffer: Vec<u8> = vec![0x05, 0x07];
    let (count, pos) = cmd_or_next(&buffer, 0x05, 2, 0).unwrap();
    assert_eq!(count, 1);
    assert_eq!(pos, 0);

    let (count, pos) = cmd_or_next(&buffer, 0x26, 4, 0).unwrap();
    assert_eq!(count, 2);
    assert_eq!(pos, 0);
}

/// Count of zero in the command: the next byte holds the count and the
/// cursor moves past it.
#[test]
fn rule_r_count_from_next_byte() {
    let buffer: Vec<u8> = vec![0x01, 0x07];
    let (count, pos) = cmd_or_next(&buffer, 0x01, 2, 0).unwrap();
    assert_eq!(count, 7);
    assert_eq!(pos, 1);

    let (count, pos) = cmd_or_next(&buffer, 0x0B, 4, 0).unwrap();
    assert_eq!(count, 7);
    assert_eq!(pos, 1);
}

/// Count of zero at the end of the buffer: truncated input.
#[test]
fn rule_r_missing_count_byte() {
    let buffer: Vec<u8> = vec![0x01];
    let r = cmd_or_next(&buffer, 0x01, 2, 0);
    assert_eq!(r, Err(SLPError::TruncatedInput { offset: 1 }));
}

/// Lesser draw: the count sits in the top six bits, one index byte per pixel.
#[test]
fn lesser_draw() {
    let buffer: Vec<u8> = vec![0x08, 0x05, 0x06, 0x0F];
    let (pixels, end) = decode_row_commands(&buffer, 0, 2).unwrap();
    assert_eq!(pixels, vec![px(SLPPixelType::Palette, 5), px(SLPPixelType::Palette, 6)]);
    assert_eq!(end, 3);
}

/// Lesser skip with the count in the next byte.
#[test]
fn lesser_skip_extended_count() {
    let buffer: Vec<u8> = vec![0x01, 0x03, 0x0F];
    let (pixels, end) = decode_row_commands(&buffer, 0, 3).unwrap();
    assert_eq!(pixels, vec![px(SLPPixelType::Transparent, 0); 3]);
    assert_eq!(end, 2);
}

/// Big draw: the count combines the high nibble with the next byte.
#[test]
fn big_draw() {
    let buffer: Vec<u8> = vec![0x02, 0x02, 0x09, 0x08, 0x0F];
    let (pixels, end) = decode_row_commands(&buffer, 0, 2).unwrap();
    assert_eq!(pixels, vec![px(SLPPixelType::Palette, 9), px(SLPPixelType::Palette, 8)]);
    assert_eq!(end, 4);
}

/// Big draw with a non-zero high nibble: count = (high nibble << 4) | next.
#[test]
fn big_draw_high_nibble() {
    let mut buffer: Vec<u8> = vec![0x12, 0x04];
    for i in 0..0x104 {
        buffer.push((i % 256) as u8);
    }
    buffer.push(0x0F);
    let (pixels, end) = decode_row_commands(&buffer, 0, 0x104).unwrap();
    assert_eq!(pixels.len(), 0x104);
    assert_eq!(pixels[0], px(SLPPixelType::Palette, 0));
    assert_eq!(pixels[0x103], px(SLPPixelType::Palette, 3));
    assert_eq!(end, buffer.len() - 1);
}

/// Big skip consumes no index bytes.
#[test]
fn big_skip() {
    let buffer: Vec<u8> = vec![0x03, 0x02, 0x0F];
    let (pixels, end) = decode_row_commands(&buffer, 0, 2).unwrap();
    assert_eq!(pixels, vec![px(SLPPixelType::Transparent, 0); 2]);
    assert_eq!(end, 2);
}

/// Player color: one index byte per pixel.
#[test]
fn player_color() {
    let buffer: Vec<u8> = vec![0x26, 0x04, 0x05, 0x0F];
    let (pixels, end) = decode_row_commands(&buffer, 0, 2).unwrap();
    assert_eq!(pixels, vec![px(SLPPixelType::Player, 4), px(SLPPixelType::Player, 5)]);
    assert_eq!(end, 3);
}

/// Fill palette color: one shared index byte.
#[test]
fn fill_palette_color() {
    let buffer: Vec<u8> = vec![0x27, 0x05, 0x0F];
    let (pixels, end) = decode_row_commands(&buffer, 0, 2).unwrap();
    assert_eq!(pixels, vec![px(SLPPixelType::Palette, 5); 2]);
    assert_eq!(end, 2);
}

/// Fill player color: one shared index byte.
#[test]
fn fill_player_color() {
    let buffer: Vec<u8> = vec![0x2A, 0x06, 0x0F];
    let (pixels, end) = decode_row_commands(&buffer, 0, 2).unwrap();
    assert_eq!(pixels, vec![px(SLPPixelType::Player, 6); 2]);
    assert_eq!(end, 2);
}

/// Shadow fill consumes no index byte.
#[test]
fn shadow_fill() {
    let buffer: Vec<u8> = vec![0x2B, 0x0F];
    let (pixels, end) = decode_row_commands(&buffer, 0, 2).unwrap();
    assert_eq!(pixels, vec![px(SLPPixelType::Shadow, 0); 2]);
    assert_eq!(end, 1);
}

/// Outline draws, single and multi.
#[test]
fn outline_draws() {
    let buffer: Vec<u8> = vec![0x4E, 0x5E, 0x02, 0x6E, 0x7E, 0x01, 0x0F];
    let (pixels, end) = decode_row_commands(&buffer, 0, 5).unwrap();
    assert_eq!(
        pixels,
        vec![
            px(SLPPixelType::Special1, 0),
            px(SLPPixelType::Special1, 0),
            px(SLPPixelType::Special1, 0),
            px(SLPPixelType::Special2, 0),
            px(SLPPixelType::Special2, 0),
        ]
    );
    assert_eq!(end, 6);
}

/// State-toggle extended commands only advance the cursor.
#[test]
fn extended_toggles_emit_nothing() {
    let buffer: Vec<u8> = vec![0x0E, 0x1E, 0x2E, 0x3E, 0x8E, 0x9E, 0xAE, 0xFF];
    let (pixels, end) = decode_row_commands(&buffer, 0, 0).unwrap();
    assert_eq!(pixels, Vec::<PalettePixel>::new());
    assert_eq!(end, 7);
}

/// An unrecognized extended command is a typed error.
#[test]
fn unknown_extended_command() {
    let buffer: Vec<u8> = vec![0xBE];
    let r = decode_row_commands(&buffer, 0, 0);
    assert_eq!(r, Err(SLPError::UnknownExtendedCommand { cmd: 0xBE, offset: 0 }));
}

/// An end-of-row byte at the very start terminates with zero pixels: fine
/// when none were expected, a row overrun otherwise.
#[test]
fn terminator_first() {
    let buffer: Vec<u8> = vec![0xFF];
    let (pixels, end) = decode_row_commands(&buffer, 0, 0).unwrap();
    assert_eq!(pixels, Vec::<PalettePixel>::new());
    assert_eq!(end, 0);

    let r = decode_row_commands(&buffer, 0, 2);
    assert_eq!(r, Err(SLPError::RowOverrun { offset: 0 }));
}

/// Producing more pixels than expected is a row overrun.
#[test]
fn overrun_detected() {
    let buffer: Vec<u8> = vec![0x08, 0x05, 0x06, 0x0F];
    let r = decode_row_commands(&buffer, 0, 1);
    assert_eq!(r, Err(SLPError::RowOverrun { offset: 3 }));
}

/// A stream that runs past the end of the buffer is truncated input.
#[test]
fn truncated_stream() {
    let buffer: Vec<u8> = vec![0x08, 0x05];
    let r = decode_row_commands(&buffer, 0, 2);
    assert_eq!(r, Err(SLPError::TruncatedInput { offset: 2 }));

    let r = decode_row_commands(&buffer, 9, 2);
    assert_eq!(r, Err(SLPError::TruncatedInput { offset: 9 }));
}

/// Round trip: decoding an encoded pixel sequence reproduces it exactly.
#[test]
fn round_trip_encoded_rows() {
    let pixels = vec![
        px(SLPPixelType::Palette, 3),
        px(SLPPixelType::Transparent, 0),
        px(SLPPixelType::Player, 7),
        px(SLPPixelType::Shadow, 0),
        px(SLPPixelType::Special1, 0),
        px(SLPPixelType::Special2, 0),
        px(SLPPixelType::Palette, 255),
    ];
    let bytes = encode_row_commands(&pixels);
    let (decoded, end) = decode_row_commands(&bytes, 0, pixels.len()).unwrap();
    assert_eq!(decoded, pixels);
    assert_eq!(end, bytes.len() - 1);
}

/// Round trip of the empty row.
#[test]
fn round_trip_empty_row() {
    let pixels = Vec::<PalettePixel>::new();
    let bytes = encode_row_commands(&pixels);
    assert_eq!(bytes, vec![0x0F]);
    let (decoded, end) = decode_row_commands(&bytes, 0, 0).unwrap();
    assert_eq!(decoded, pixels);
    assert_eq!(end, 0);
}
