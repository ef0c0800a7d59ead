use vstd::prelude::*;

use crate::slp::error::SLPError;
use crate::slp::pixel::PalettePixel;
use crate::slp::pixel::SLPPixelType;

verus! {

/// Outcome of running the row command interpreter from a given position.
///
/// `Pixels` carries the pixels emitted from that position up to the
/// end-of-row marker, together with the marker's position. The other
/// variants name the failure and the buffer position at which it was
/// detected.
pub enum RowOutcome {
    /// The stream produced `pixels` and stopped at the end-of-row byte at `end`.
    Pixels { pixels: Seq<PalettePixel>, end: int },
    /// A read at or past `offset` ran past the end of the buffer.
    Truncated { offset: int },
    /// The command byte at `offset` is not part of the instruction set.
    UnknownCommand { offset: int },
    /// The extended command byte at `offset` has an unrecognized high nibble.
    UnknownExtendedCommand { offset: int },
    /// The stream did not produce exactly the expected number of pixels.
    Overrun { offset: int },
}

/// A single pixel value.
pub open spec fn spec_px(pixel_type: SLPPixelType, index: u8) -> PalettePixel {
    PalettePixel { pixel_type, index }
}

/// `n` copies of the same pixel.
pub open spec fn spec_repeat(pixel_type: SLPPixelType, index: u8, n: int) -> Seq<PalettePixel> {
    Seq::new(n as nat, |k: int| spec_px(pixel_type, index))
}

/// `n` pixels of one type whose indices are the bytes `b[first .. first + n]`.
pub open spec fn spec_draw(b: Seq<u8>, first: int, n: int, pixel_type: SLPPixelType) -> Seq<
    PalettePixel,
> {
    Seq::new(n as nat, |k: int| spec_px(pixel_type, b[first + k]))
}

/// Rule R: the count of a count-bearing command is `cmd >> shift`, unless that
/// is zero, in which case the next byte holds the count and the cursor moves
/// past it. Yields the count and the cursor position after applying the rule,
/// or `None` when the extra byte lies past the end of the buffer.
pub open spec fn spec_rule_r(b: Seq<u8>, cmd: u8, shift: u8, pos: int) -> Option<(int, int)> {
    if cmd >> shift != 0 {
        Some(((cmd >> shift) as int, pos))
    } else if pos + 1 < b.len() {
        Some((b[pos + 1] as int, pos + 1))
    } else {
        None
    }
}

/// The pixel count of a "big" draw or skip command: the command's high nibble
/// shifted up by four bits, combined with the following byte.
pub open spec fn spec_big_count(cmd: u8, next: u8) -> int {
    ((((cmd & 0xF0) as u32) << 4) | (next as u32)) as int
}

/// Prefix the pixels of a successful outcome; pass every failure through.
pub open spec fn spec_with_prefix(pre: Seq<PalettePixel>, o: RowOutcome) -> RowOutcome {
    match o {
        RowOutcome::Pixels { pixels, end } => RowOutcome::Pixels { pixels: pre + pixels, end },
        _ => o,
    }
}

/// The row command interpreter, as a function of the buffer alone.
///
/// Starting at `pos` with `emitted` pixels already produced out of the
/// `expected` total, it reads one command byte at a time and collects the
/// pixels the commands emit, until the end-of-row marker (a byte whose low
/// nibble is 0xF) or a failure. A stream is accepted only if it produces
/// exactly `expected` pixels; producing more, or reaching the marker with
/// fewer, is an overrun.
pub open spec fn spec_run_cmds(b: Seq<u8>, pos: int, emitted: int, expected: int) -> RowOutcome
    decreases b.len() - pos,
{
    if emitted > expected {
        RowOutcome::Overrun { offset: pos }
    } else if pos < 0 || pos >= b.len() {
        RowOutcome::Truncated { offset: pos }
    } else {
        let cmd = b[pos];
        let lower_nibble = cmd & 0x0F;
        let higher_nibble = cmd & 0xF0;
        let lowest_crumb = cmd & 0x03;
        if lower_nibble == 0x0F {
            // End of row
            if emitted == expected {
                RowOutcome::Pixels { pixels: Seq::empty(), end: pos }
            } else {
                RowOutcome::Overrun { offset: pos }
            }
        } else if lowest_crumb == 0x00 {
            // Lesser draw
            let count = (cmd >> 2) as int;
            if pos + count < b.len() {
                spec_with_prefix(
                    spec_draw(b, pos + 1, count, SLPPixelType::Palette),
                    spec_run_cmds(b, pos + count + 1, emitted + count, expected),
                )
            } else {
                RowOutcome::Truncated { offset: b.len() as int }
            }
        } else if lowest_crumb == 0x01 {
            // Lesser skip
            match spec_rule_r(b, cmd, 2, pos) {
                Some((count, base)) => spec_with_prefix(
                    spec_repeat(SLPPixelType::Transparent, 0, count),
                    spec_run_cmds(b, base + 1, emitted + count, expected),
                ),
                None => RowOutcome::Truncated { offset: b.len() as int },
            }
        } else if lower_nibble == 0x02 {
            // Big draw
            if pos + 1 < b.len() {
                let count = spec_big_count(cmd, b[pos + 1]);
                if pos + 1 + count < b.len() {
                    spec_with_prefix(
                        spec_draw(b, pos + 2, count, SLPPixelType::Palette),
                        spec_run_cmds(b, pos + count + 2, emitted + count, expected),
                    )
                } else {
                    RowOutcome::Truncated { offset: b.len() as int }
                }
            } else {
                RowOutcome::Truncated { offset: b.len() as int }
            }
        } else if lower_nibble == 0x03 {
            // Big skip
            if pos + 1 < b.len() {
                let count = spec_big_count(cmd, b[pos + 1]);
                spec_with_prefix(
                    spec_repeat(SLPPixelType::Transparent, 0, count),
                    spec_run_cmds(b, pos + 2, emitted + count, expected),
                )
            } else {
                RowOutcome::Truncated { offset: b.len() as int }
            }
        } else if lower_nibble == 0x06 {
            // Player color
            match spec_rule_r(b, cmd, 4, pos) {
                Some((count, base)) => if base + count < b.len() {
                    spec_with_prefix(
                        spec_draw(b, base + 1, count, SLPPixelType::Player),
                        spec_run_cmds(b, base + count + 1, emitted + count, expected),
                    )
                } else {
                    RowOutcome::Truncated { offset: b.len() as int }
                },
                None => RowOutcome::Truncated { offset: b.len() as int },
            }
        } else if lower_nibble == 0x07 || lower_nibble == 0x0A {
            // Fill palette color / fill player color
            let pixel_type = if lower_nibble == 0x07 {
                SLPPixelType::Palette
            } else {
                SLPPixelType::Player
            };
            match spec_rule_r(b, cmd, 4, pos) {
                Some((count, base)) => if base + 1 < b.len() {
                    spec_with_prefix(
                        spec_repeat(pixel_type, b[base + 1], count),
                        spec_run_cmds(b, base + 2, emitted + count, expected),
                    )
                } else {
                    RowOutcome::Truncated { offset: b.len() as int }
                },
                None => RowOutcome::Truncated { offset: b.len() as int },
            }
        } else if lower_nibble == 0x0B {
            // Shadow fill
            match spec_rule_r(b, cmd, 4, pos) {
                Some((count, base)) => spec_with_prefix(
                    spec_repeat(SLPPixelType::Shadow, 0, count),
                    spec_run_cmds(b, base + 1, emitted + count, expected),
                ),
                None => RowOutcome::Truncated { offset: b.len() as int },
            }
        } else if lower_nibble == 0x0E {
            // Extended command
            if higher_nibble == 0x00 || higher_nibble == 0x10 || higher_nibble == 0x20
                || higher_nibble == 0x30 || higher_nibble == 0x80 || higher_nibble == 0x90
                || higher_nibble == 0xA0 {
                // Recognized state toggles with no pixel-stream effect
                spec_run_cmds(b, pos + 1, emitted, expected)
            } else if higher_nibble == 0x40 || higher_nibble == 0x60 {
                // Outline draw
                let pixel_type = if higher_nibble == 0x40 {
                    SLPPixelType::Special1
                } else {
                    SLPPixelType::Special2
                };
                spec_with_prefix(
                    seq![spec_px(pixel_type, 0)],
                    spec_run_cmds(b, pos + 1, emitted + 1, expected),
                )
            } else if higher_nibble == 0x50 || higher_nibble == 0x70 {
                // Outline multi draw
                let pixel_type = if higher_nibble == 0x50 {
                    SLPPixelType::Special1
                } else {
                    SLPPixelType::Special2
                };
                if pos + 1 < b.len() {
                    let count = b[pos + 1] as int;
                    spec_with_prefix(
                        spec_repeat(pixel_type, 0, count),
                        spec_run_cmds(b, pos + 2, emitted + count, expected),
                    )
                } else {
                    RowOutcome::Truncated { offset: b.len() as int }
                }
            } else {
                RowOutcome::UnknownExtendedCommand { offset: pos }
            }
        } else {
            RowOutcome::UnknownCommand { offset: pos }
        }
    }
}

/// The typed error reported for a failing outcome.
pub open spec fn spec_error_for(b: Seq<u8>, o: RowOutcome) -> SLPError {
    match o {
        RowOutcome::Truncated { offset } => SLPError::TruncatedInput { offset: offset as u64 },
        RowOutcome::UnknownCommand { offset } => SLPError::UnknownCommand {
            cmd: b[offset],
            offset: offset as u64,
        },
        RowOutcome::UnknownExtendedCommand { offset } => SLPError::UnknownExtendedCommand {
            cmd: b[offset],
            offset: offset as u64,
        },
        RowOutcome::Overrun { offset } => SLPError::RowOverrun { offset: offset as u64 },
        RowOutcome::Pixels { .. } => SLPError::TruncatedInput { offset: 0 },
    }
}

/// How the result of the executable interpreter relates to the specification:
/// a successful run returns exactly the pixels and end position of the
/// `Pixels` outcome, and a failing run returns exactly the outcome's error.
pub open spec fn spec_row_cmds_result(
    b: Seq<u8>,
    start: int,
    expected: int,
    r: Result<(Vec<PalettePixel>, usize), SLPError>,
) -> bool {
    match spec_run_cmds(b, start, 0, expected) {
        RowOutcome::Pixels { pixels, end } => r matches Ok(v) && v.0@ == pixels && v.1 as int
            == end,
        o => r matches Err(e) && e == spec_error_for(b, o),
    }
}

/// Prefixing distributes over itself: two prefixes in a row are one
/// concatenated prefix.
proof fn lemma_with_prefix_assoc(a: Seq<PalettePixel>, c: Seq<PalettePixel>, o: RowOutcome)
    ensures
        spec_with_prefix(a, spec_with_prefix(c, o)) == spec_with_prefix(a + c, o),
{
    match o {
        RowOutcome::Pixels { pixels, end } => {
            assert(a + (c + pixels) =~= (a + c) + pixels);
        },
        _ => {},
    }
}

/// A successful run emits exactly the pixels that were still missing, and
/// stops at a position inside the buffer.
pub proof fn lemma_run_cmds_success_len(b: Seq<u8>, pos: int, emitted: int, expected: int)
    ensures
        spec_run_cmds(b, pos, emitted, expected) matches RowOutcome::Pixels { pixels, end }
            ==> emitted + pixels.len() == expected && 0 <= end < b.len(),
    decreases b.len() - pos,
{
    if emitted > expected || pos < 0 || pos >= b.len() {
        // failing outcomes; nothing to show
    } else {
        let cmd = b[pos];
        let lower_nibble = cmd & 0x0F;
        let higher_nibble = cmd & 0xF0;
        let lowest_crumb = cmd & 0x03;
        if lower_nibble == 0x0F {
        } else if lowest_crumb == 0x00 {
            let count = (cmd >> 2) as int;
            if pos + count < b.len() {
                lemma_run_cmds_success_len(b, pos + count + 1, emitted + count, expected);
            }
        } else if lowest_crumb == 0x01 {
            match spec_rule_r(b, cmd, 2, pos) {
                Some((count, base)) => {
                    lemma_run_cmds_success_len(b, base + 1, emitted + count, expected);
                },
                None => {},
            }
        } else if lower_nibble == 0x02 {
            if pos + 1 < b.len() {
                let count = spec_big_count(cmd, b[pos + 1]);
                if pos + 1 + count < b.len() {
                    lemma_run_cmds_success_len(b, pos + count + 2, emitted + count, expected);
                }
            }
        } else if lower_nibble == 0x03 {
            if pos + 1 < b.len() {
                let count = spec_big_count(cmd, b[pos + 1]);
                lemma_run_cmds_success_len(b, pos + 2, emitted + count, expected);
            }
        } else if lower_nibble == 0x06 {
            match spec_rule_r(b, cmd, 4, pos) {
                Some((count, base)) => {
                    if base + count < b.len() {
                        lemma_run_cmds_success_len(b, base + count + 1, emitted + count, expected);
                    }
                },
                None => {},
            }
        } else if lower_nibble == 0x07 || lower_nibble == 0x0A {
            match spec_rule_r(b, cmd, 4, pos) {
                Some((count, base)) => {
                    if base + 1 < b.len() {
                        lemma_run_cmds_success_len(b, base + 2, emitted + count, expected);
                    }
                },
                None => {},
            }
        } else if lower_nibble == 0x0B {
            match spec_rule_r(b, cmd, 4, pos) {
                Some((count, base)) => {
                    lemma_run_cmds_success_len(b, base + 1, emitted + count, expected);
                },
                None => {},
            }
        } else if lower_nibble == 0x0E {
            if higher_nibble == 0x00 || higher_nibble == 0x10 || higher_nibble == 0x20
                || higher_nibble == 0x30 || higher_nibble == 0x80 || higher_nibble == 0x90
                || higher_nibble == 0xA0 {
                lemma_run_cmds_success_len(b, pos + 1, emitted, expected);
            } else if higher_nibble == 0x40 || higher_nibble == 0x60 {
                lemma_run_cmds_success_len(b, pos + 1, emitted + 1, expected);
            } else if higher_nibble == 0x50 || higher_nibble == 0x70 {
                if pos + 1 < b.len() {
                    let count = b[pos + 1] as int;
                    lemma_run_cmds_success_len(b, pos + 2, emitted + count, expected);
                }
            }
        }
    }
}


/// Get the number of pixels following certain row commands.
///
/// Commands 0x01, 0x06, 0x07, 0x0A, 0x0B store the number of pixels either in
/// the command itself or in the next byte: if `cmd >> n` is not 0, that value
/// is used and the cursor stays put; otherwise the next byte holds the count
/// and the cursor moves past it.
pub fn cmd_or_next(buffer: &[u8], cmd: u8, n: u8, pos: usize) -> (r: Result<(u8, usize), SLPError>)
    requires
        n < 8,
        pos < buffer@.len(),
    ensures
        match r {
            Ok(v) => {
                &&& spec_rule_r(buffer@, cmd, n, pos as int) == Some((v.0 as int, v.1 as int))
                &&& (cmd >> n != 0 ==> v.0 == cmd >> n && v.1 == pos)
                &&& (cmd >> n == 0 ==> pos + 1 < buffer@.len() && v.0 == buffer@[pos as int + 1]
                    && v.1 == pos + 1)
            },
            Err(e) => {
                &&& spec_rule_r(buffer@, cmd, n, pos as int) is None
                &&& cmd >> n == 0 && pos + 1 >= buffer@.len()
                &&& e == (SLPError::TruncatedInput { offset: buffer@.len() as u64 })
            },
        },
{
    let blen: usize = buffer.len();
    let packed_in_cmd = cmd >> n;

    if packed_in_cmd != 0 {
        return Ok((packed_in_cmd, pos));
    }
    let next = pos + 1;
    if next >= blen {
        return Err(SLPError::TruncatedInput { offset: buffer.len() as u64 });
    }
    Ok((buffer[next], next))
}

/// Append `count` copies of one pixel.
#[verifier::loop_isolation(false)]
pub(crate) fn push_repeat(pixels: &mut Vec<PalettePixel>, pixel_type: SLPPixelType, index: u8, count: usize)
    ensures
        final(pixels)@ == old(pixels)@ + spec_repeat(pixel_type, index, count as int),
{
    proof {
        assert(pixels@ =~= old(pixels)@ + spec_repeat(pixel_type, index, 0));
    }
    let mut k: usize = 0;
    while k < count
        invariant
            k <= count,
            pixels@ == old(pixels)@ + spec_repeat(pixel_type, index, k as int),
        decreases count - k,
    {
        pixels.push(PalettePixel { pixel_type, index });
        k = k + 1;
        proof {
            assert(pixels@ =~= old(pixels)@ + spec_repeat(pixel_type, index, k as int));
        }
    }
}

/// Append `count` pixels of one type, each taking its palette index from the
/// byte after the previous one, starting just past `pos`. Returns the
/// position of the last index byte consumed.
#[verifier::loop_isolation(false)]
fn push_draw(
    pixels: &mut Vec<PalettePixel>,
    buffer: &[u8],
    pos: usize,
    count: usize,
    pixel_type: SLPPixelType,
) -> (r: Result<usize, SLPError>)
    requires
        pos < buffer@.len(),
    ensures
        match r {
            Ok(end) => {
                &&& end == pos + count
                &&& pos + count < buffer@.len()
                &&& final(pixels)@ == old(pixels)@ + spec_draw(
                    buffer@,
                    pos as int + 1,
                    count as int,
                    pixel_type,
                )
            },
            Err(e) => {
                &&& pos + count >= buffer@.len()
                &&& e == (SLPError::TruncatedInput { offset: buffer@.len() as u64 })
                &&& final(pixels)@.len() >= old(pixels)@.len()
            },
        },
{
    proof {
        assert(pixels@ =~= old(pixels)@ + spec_draw(buffer@, pos as int + 1, 0, pixel_type));
    }
    let blen: usize = buffer.len();
    let mut dpos = pos;
    let mut k: usize = 0;
    while k < count
        invariant
            k <= count,
            dpos == pos + k,
            dpos < buffer@.len(),
            pixels@ == old(pixels)@ + spec_draw(buffer@, pos as int + 1, k as int, pixel_type),
        decreases count - k,
    {
        if dpos + 1 >= blen {
            return Err(SLPError::TruncatedInput { offset: buffer.len() as u64 });
        }
        dpos = dpos + 1;
        let color = buffer[dpos];
        pixels.push(PalettePixel { pixel_type, index: color });
        k = k + 1;
        proof {
            assert(pixels@ =~= old(pixels)@ + spec_draw(
                buffer@,
                pos as int + 1,
                k as int,
                pixel_type,
            ));
        }
    }
    Ok(dpos)
}

/// A prefix of no pixels changes nothing.
proof fn lemma_with_prefix_empty(o: RowOutcome)
    ensures
        spec_with_prefix(Seq::empty(), o) == o,
{
    match o {
        RowOutcome::Pixels { pixels, end } => {
            assert(Seq::empty() + pixels =~= pixels);
        },
        _ => {},
    }
}


/// Run the row command interpreter over `buffer`, starting at
/// `first_cmd_offset`, until the end-of-row marker.
///
/// On success the returned pixels are exactly the `expected_size` pixels the
/// stream encodes, together with the position of the end-of-row byte; every
/// malformed stream yields the typed error of the specification.
#[verifier::loop_isolation(false)]
pub fn decode_row_commands(
    buffer: &[u8],
    first_cmd_offset: usize,
    expected_size: usize,
) -> (r: Result<(Vec<PalettePixel>, usize), SLPError>)
    ensures
        spec_row_cmds_result(buffer@, first_cmd_offset as int, expected_size as int, r),
{
    let ghost b = buffer@;
    let ghost start = first_cmd_offset as int;
    let ghost exp = expected_size as int;
    let blen: usize = buffer.len();

    if first_cmd_offset >= blen {
        return Err(SLPError::TruncatedInput { offset: first_cmd_offset as u64 });
    }

    let mut pixels: Vec<PalettePixel> = Vec::new();
    let mut dpos: usize = first_cmd_offset;

    proof {
        lemma_with_prefix_empty(spec_run_cmds(b, start, 0, exp));
    }

    loop
        invariant
            dpos <= b.len(),
            spec_with_prefix(pixels@, spec_run_cmds(b, dpos as int, pixels@.len() as int, exp))
                == spec_run_cmds(b, start, 0, exp),
        decreases b.len() - dpos,
    {
        let ghost pre = pixels@;
        let ghost m0 = pixels@.len() as int;
        let ghost pos0 = dpos as int;
        let ghost mut seg: Seq<PalettePixel> = Seq::empty();

        if pixels.len() > expected_size {
            proof {
                assert(spec_run_cmds(b, pos0, m0, exp) == (RowOutcome::Overrun { offset: pos0 }));
            }
            return Err(SLPError::RowOverrun { offset: dpos as u64 });
        }

        if dpos >= blen {
            proof {
                assert(spec_run_cmds(b, pos0, m0, exp) == (RowOutcome::Truncated {
                    offset: pos0,
                }));
            }
            return Err(SLPError::TruncatedInput { offset: dpos as u64 });
        }

        let cmd = buffer[dpos];

        let lower_nibble = cmd & 0x0F;
        let higher_nibble = cmd & 0xF0;
        let lowest_crumb = cmd & 0b0000_0011;

        if lower_nibble == 0x0F {
            // End of row
            if pixels.len() == expected_size {
                proof {
                    assert(spec_run_cmds(b, pos0, m0, exp) == (RowOutcome::Pixels {
                        pixels: Seq::empty(),
                        end: pos0,
                    }));
                    assert(pre + Seq::<PalettePixel>::empty() =~= pre);
                }
                return Ok((pixels, dpos));
            }
            proof {
                assert(spec_run_cmds(b, pos0, m0, exp) == (RowOutcome::Overrun { offset: pos0 }));
            }
            return Err(SLPError::RowOverrun { offset: dpos as u64 });
        }

        match lowest_crumb {
            // Lesser draw
            0b0000_0000 => {
                let count = cmd >> 2;
                match push_draw(&mut pixels, buffer, dpos, count as usize, SLPPixelType::Palette) {
                    Ok(end) => {
                        dpos = end;
                        proof {
                            seg = spec_draw(b, pos0 + 1, count as int, SLPPixelType::Palette);
                        }
                    },
                    Err(e) => {
                        proof {
                            assert(spec_run_cmds(b, pos0, m0, exp) == (RowOutcome::Truncated {
                                offset: b.len() as int,
                            }));
                        }
                        return Err(e);
                    },
                }
            },
            // Lesser skip
            0b0000_0001 => {
                let (count, base) = match cmd_or_next(buffer, cmd, 2, dpos) {
                    Ok(v) => v,
                    Err(e) => {
                        proof {
                            assert(spec_run_cmds(b, pos0, m0, exp) == (RowOutcome::Truncated {
                                offset: b.len() as int,
                            }));
                        }
                        return Err(e);
                    },
                };
                push_repeat(&mut pixels, SLPPixelType::Transparent, 0, count as usize);
                dpos = base;
                proof {
                    seg = spec_repeat(SLPPixelType::Transparent, 0, count as int);
                }
            },
            _ => {
                match lower_nibble {
                    // Big draw
                    0x02 => {
                        if dpos + 1 >= blen {
                            proof {
                                assert(spec_run_cmds(b, pos0, m0, exp) == (RowOutcome::Truncated {
                                    offset: b.len() as int,
                                }));
                            }
                            return Err(SLPError::TruncatedInput { offset: blen as u64 });
                        }
                        let nextbyte = buffer[dpos + 1];
                        let count = (((cmd & 0xF0) as u32) << 4) | (nextbyte as u32);
                        match push_draw(
                            &mut pixels,
                            buffer,
                            dpos + 1,
                            count as usize,
                            SLPPixelType::Palette,
                        ) {
                            Ok(end) => {
                                dpos = end;
                                proof {
                                    seg = spec_draw(
                                        b,
                                        pos0 + 2,
                                        count as int,
                                        SLPPixelType::Palette,
                                    );
                                }
                            },
                            Err(e) => {
                                proof {
                                    assert(spec_run_cmds(b, pos0, m0, exp)
                                        == (RowOutcome::Truncated { offset: b.len() as int }));
                                }
                                return Err(e);
                            },
                        }
                    },
                    // Big skip
                    0x03 => {
                        if dpos + 1 >= blen {
                            proof {
                                assert(spec_run_cmds(b, pos0, m0, exp) == (RowOutcome::Truncated {
                                    offset: b.len() as int,
                                }));
                            }
                            return Err(SLPError::TruncatedInput { offset: blen as u64 });
                        }
                        let nextbyte = buffer[dpos + 1];
                        let count = (((cmd & 0xF0) as u32) << 4) | (nextbyte as u32);
                        push_repeat(&mut pixels, SLPPixelType::Transparent, 0, count as usize);
                        dpos = dpos + 1;
                        proof {
                            seg = spec_repeat(SLPPixelType::Transparent, 0, count as int);
                        }
                    },
                    // Player color
                    0x06 => {
                        let (count, base) = match cmd_or_next(buffer, cmd, 4, dpos) {
                            Ok(v) => v,
                            Err(e) => {
                                proof {
                                    assert(spec_run_cmds(b, pos0, m0, exp)
                                        == (RowOutcome::Truncated { offset: b.len() as int }));
                                }
                                return Err(e);
                            },
                        };
                        match push_draw(
                            &mut pixels,
                            buffer,
                            base,
                            count as usize,
                            SLPPixelType::Player,
                        ) {
                            Ok(end) => {
                                dpos = end;
                                proof {
                                    seg = spec_draw(
                                        b,
                                        base as int + 1,
                                        count as int,
                                        SLPPixelType::Player,
                                    );
                                }
                            },
                            Err(e) => {
                                proof {
                                    assert(spec_run_cmds(b, pos0, m0, exp)
                                        == (RowOutcome::Truncated { offset: b.len() as int }));
                                }
                                return Err(e);
                            },
                        }
                    },
                    // Fill palette color / fill player color
                    0x07 | 0x0A => {
                        let fill_type = if lower_nibble == 0x07 {
                            SLPPixelType::Palette
                        } else {
                            SLPPixelType::Player
                        };
                        let (count, base) = match cmd_or_next(buffer, cmd, 4, dpos) {
                            Ok(v) => v,
                            Err(e) => {
                                proof {
                                    assert(spec_run_cmds(b, pos0, m0, exp)
                                        == (RowOutcome::Truncated { offset: b.len() as int }));
                                }
                                return Err(e);
                            },
                        };
                        if base + 1 >= blen {
                            proof {
                                assert(spec_run_cmds(b, pos0, m0, exp) == (RowOutcome::Truncated {
                                    offset: b.len() as int,
                                }));
                            }
                            return Err(SLPError::TruncatedInput { offset: blen as u64 });
                        }
                        let color = buffer[base + 1];
                        push_repeat(&mut pixels, fill_type, color, count as usize);
                        dpos = base + 1;
                        proof {
                            seg = spec_repeat(fill_type, color, count as int);
                        }
                    },
                    // Shadow fill
                    0x0B => {
                        let (count, base) = match cmd_or_next(buffer, cmd, 4, dpos) {
                            Ok(v) => v,
                            Err(e) => {
                                proof {
                                    assert(spec_run_cmds(b, pos0, m0, exp)
                                        == (RowOutcome::Truncated { offset: b.len() as int }));
                                }
                                return Err(e);
                            },
                        };
                        push_repeat(&mut pixels, SLPPixelType::Shadow, 0, count as usize);
                        dpos = base;
                        proof {
                            seg = spec_repeat(SLPPixelType::Shadow, 0, count as int);
                        }
                    },
                    // Extended command
                    0x0E => {
                        match higher_nibble {
                            // Recognized state toggles with no pixel-stream effect
                            0x00 | 0x10 | 0x20 | 0x30 | 0x80 | 0x90 | 0xA0 => {},
                            // Outline 1 draw
                            0x40 => {
                                pixels.push(PalettePixel::new(SLPPixelType::Special1, 0));
                                proof {
                                    seg = seq![spec_px(SLPPixelType::Special1, 0)];
                                    assert(pixels@ =~= pre + seg);
                                }
                            },
                            // Outline 1 multi draw
                            0x50 => {
                                if dpos + 1 >= blen {
                                    proof {
                                        assert(spec_run_cmds(b, pos0, m0, exp)
                                            == (RowOutcome::Truncated { offset: b.len() as int }));
                                    }
                                    return Err(SLPError::TruncatedInput { offset: blen as u64 });
                                }
                                let count = buffer[dpos + 1];
                                push_repeat(&mut pixels, SLPPixelType::Special1, 0, count as usize);
                                dpos = dpos + 1;
                                proof {
                                    seg = spec_repeat(SLPPixelType::Special1, 0, count as int);
                                }
                            },
                            // Outline 2 draw
                            0x60 => {
                                pixels.push(PalettePixel::new(SLPPixelType::Special2, 0));
                                proof {
                                    seg = seq![spec_px(SLPPixelType::Special2, 0)];
                                    assert(pixels@ =~= pre + seg);
                                }
                            },
                            // Outline 2 multi draw
                            0x70 => {
                                if dpos + 1 >= blen {
                                    proof {
                                        assert(spec_run_cmds(b, pos0, m0, exp)
                                            == (RowOutcome::Truncated { offset: b.len() as int }));
                                    }
                                    return Err(SLPError::TruncatedInput { offset: blen as u64 });
                                }
                                let count = buffer[dpos + 1];
                                push_repeat(&mut pixels, SLPPixelType::Special2, 0, count as usize);
                                dpos = dpos + 1;
                                proof {
                                    seg = spec_repeat(SLPPixelType::Special2, 0, count as int);
                                }
                            },
                            _ => {
                                proof {
                                    assert(spec_run_cmds(b, pos0, m0, exp)
                                        == (RowOutcome::UnknownExtendedCommand { offset: pos0 }));
                                }
                                return Err(
                                    SLPError::UnknownExtendedCommand { cmd, offset: dpos as u64 },
                                );
                            },
                        }
                    },
                    _ => {
                        proof {
                            assert(spec_run_cmds(b, pos0, m0, exp) == (RowOutcome::UnknownCommand {
                                offset: pos0,
                            }));
                        }
                        return Err(SLPError::UnknownCommand { cmd, offset: dpos as u64 });
                    },
                }
            },
        }

        dpos = dpos + 1;

        proof {
            let rest = spec_run_cmds(b, dpos as int, pixels@.len() as int, exp);
            lemma_with_prefix_empty(rest);
            assert(pixels@ =~= pre + seg);
            assert(spec_run_cmds(b, pos0, m0, exp) == spec_with_prefix(seg, rest));
            lemma_with_prefix_assoc(pre, seg, rest);
        }
    }
}


/// Whether the reference encoder can represent a pixel: drawn pixels carry
/// any index, while skip, shadow and outline pixels carry index zero, which
/// is what the interpreter emits for them. The two v4-only kinds have no
/// command in this instruction set.
pub open spec fn spec_encodable(p: PalettePixel) -> bool {
    match p.pixel_type {
        SLPPixelType::Palette => true,
        SLPPixelType::Player => true,
        SLPPixelType::Transparent => p.index == 0,
        SLPPixelType::Shadow => p.index == 0,
        SLPPixelType::Special1 => p.index == 0,
        SLPPixelType::Special2 => p.index == 0,
        SLPPixelType::ShadowV4 => false,
        SLPPixelType::PlayerV4 => false,
    }
}

/// The command bytes the reference encoder emits for one pixel: a
/// count-one command of the matching kind, plus the index byte where the
/// command consumes one.
pub open spec fn spec_encode_pixel(p: PalettePixel) -> Seq<u8> {
    match p.pixel_type {
        SLPPixelType::Palette => seq![0x04u8, p.index],
        SLPPixelType::Transparent => seq![0x05u8],
        SLPPixelType::Player => seq![0x16u8, p.index],
        SLPPixelType::Shadow => seq![0x1Bu8],
        SLPPixelType::Special1 => seq![0x4Eu8],
        SLPPixelType::Special2 => seq![0x6Eu8],
        SLPPixelType::ShadowV4 => Seq::empty(),
        SLPPixelType::PlayerV4 => Seq::empty(),
    }
}

/// The command bytes of a pixel sequence, without the end-of-row marker.
pub open spec fn spec_encode_pixels(pixels: Seq<PalettePixel>) -> Seq<u8>
    decreases pixels.len(),
{
    if pixels.len() == 0 {
        Seq::empty()
    } else {
        spec_encode_pixel(pixels.first()) + spec_encode_pixels(pixels.drop_first())
    }
}

/// The complete command stream of a row: the pixel commands followed by the
/// end-of-row marker.
pub open spec fn spec_encode_cmds(pixels: Seq<PalettePixel>) -> Seq<u8> {
    spec_encode_pixels(pixels) + seq![0x0Fu8]
}

/// Nibble and crumb values of the command bytes the encoder emits.
proof fn lemma_cmd_byte_facts()
    by (bit_vector)
    ensures
        0x04u8 & 0x0F == 0x04u8 && 0x04u8 & 0x03 == 0x00u8 && 0x04u8 >> 2 == 0x01u8,
        0x05u8 & 0x0F == 0x05u8 && 0x05u8 & 0x03 == 0x01u8 && 0x05u8 >> 2 == 0x01u8,
        0x16u8 & 0x0F == 0x06u8 && 0x16u8 & 0x03 == 0x02u8 && 0x16u8 >> 4 == 0x01u8,
        0x1Bu8 & 0x0F == 0x0Bu8 && 0x1Bu8 & 0x03 == 0x03u8 && 0x1Bu8 >> 4 == 0x01u8,
        0x4Eu8 & 0x0F == 0x0Eu8 && 0x4Eu8 & 0x03 == 0x02u8 && 0x4Eu8 & 0xF0 == 0x40u8,
        0x6Eu8 & 0x0F == 0x0Eu8 && 0x6Eu8 & 0x03 == 0x02u8 && 0x6Eu8 & 0xF0 == 0x60u8,
        0x0Fu8 & 0x0F == 0x0Fu8,
{
}

/// Appending one pixel to the encoder's input appends its command bytes to
/// the encoder's output.
proof fn lemma_encode_pixels_push(s: Seq<PalettePixel>, p: PalettePixel)
    ensures
        spec_encode_pixels(s.push(p)) == spec_encode_pixels(s) + spec_encode_pixel(p),
    decreases s.len(),
{
    if s.len() == 0 {
        assert(s =~= Seq::<PalettePixel>::empty());
        assert(spec_encode_pixels(Seq::<PalettePixel>::empty()) == Seq::<u8>::empty());
        assert(s.push(p).first() == p);
        assert(s.push(p).drop_first() =~= Seq::<PalettePixel>::empty());
        assert(spec_encode_pixel(p) + Seq::<u8>::empty() =~= spec_encode_pixel(p));
        assert(spec_encode_pixels(s) + spec_encode_pixel(p) =~= spec_encode_pixel(p));
        assert(spec_encode_pixels(s.push(p)) =~= spec_encode_pixel(p));
    } else {
        lemma_encode_pixels_push(s.drop_first(), p);
        assert(s.push(p).first() == s.first());
        assert(s.push(p).drop_first() =~= s.drop_first().push(p));
        assert(spec_encode_pixel(s.first()) + (spec_encode_pixels(s.drop_first())
            + spec_encode_pixel(p)) =~= (spec_encode_pixel(s.first()) + spec_encode_pixels(
            s.drop_first(),
        )) + spec_encode_pixel(p));
    }
}

/// Running the interpreter over a buffer whose suffix from `pos` is the
/// encoding of `rest` yields exactly `rest`, stopping at the final
/// end-of-row byte.
proof fn lemma_encode_decode_at(
    b: Seq<u8>,
    pos: int,
    done: int,
    rest: Seq<PalettePixel>,
    expected: int,
)
    requires
        0 <= pos <= b.len(),
        b.subrange(pos, b.len() as int) == spec_encode_cmds(rest),
        done + rest.len() == expected,
        forall|k: int| 0 <= k < rest.len() ==> spec_encodable(#[trigger] rest[k]),
    ensures
        spec_run_cmds(b, pos, done, expected) == (RowOutcome::Pixels {
            pixels: rest,
            end: b.len() - 1,
        }),
    decreases rest.len(),
{
    lemma_cmd_byte_facts();
    let sfx = b.subrange(pos, b.len() as int);
    if rest.len() == 0 {
        assert(sfx.len() == 1);
        assert(b[pos] == sfx[0]);
        assert(b[pos] == 0x0F);
        assert(rest =~= Seq::<PalettePixel>::empty());
        assert(spec_run_cmds(b, pos, done, expected) == (RowOutcome::Pixels {
            pixels: Seq::<PalettePixel>::empty(),
            end: pos,
        }));
    } else {
        let p = rest.first();
        let rest2 = rest.drop_first();
        assert(spec_encodable(p));
        let enc = spec_encode_pixel(p);
        let ep2 = spec_encode_pixels(rest2);
        assert(sfx == (enc + ep2) + seq![0x0Fu8]);
        let el = enc.len() as int;
        assert(b[pos] == sfx[0]);
        assert(sfx[0] == enc[0]);
        assert(b.subrange(pos + el, b.len() as int) =~= spec_encode_cmds(rest2)) by {
            assert forall|i: int|
                0 <= i < b.len() - pos - el implies b.subrange(pos + el, b.len() as int)[i]
                == spec_encode_cmds(rest2)[i] by {
                assert(b.subrange(pos + el, b.len() as int)[i] == b[pos + el + i]);
                assert(b[pos + el + i] == sfx[el + i]);
            }
        }
        assert(forall|k: int| 0 <= k < rest2.len() ==> spec_encodable(#[trigger] rest2[k]))
            by {
            assert forall|k: int| 0 <= k < rest2.len() implies spec_encodable(
                #[trigger] rest2[k],
            ) by {
                assert(rest2[k] == rest[k + 1]);
            }
        }
        lemma_encode_decode_at(b, pos + el, done + 1, rest2, expected);
        assert(rest =~= seq![p] + rest2);
        match p.pixel_type {
            SLPPixelType::Palette => {
                assert(b[pos] == 0x04);
                assert(b[pos + 1] == sfx[1] && sfx[1] == enc[1] && enc[1] == p.index);
                assert(pos + 1 < b.len());
                assert(spec_draw(b, pos + 1, 1, SLPPixelType::Palette) =~= seq![p]);
                assert(spec_run_cmds(b, pos, done, expected) == spec_with_prefix(
                    spec_draw(b, pos + 1, 1, SLPPixelType::Palette),
                    spec_run_cmds(b, pos + 2, done + 1, expected),
                ));
            },
            SLPPixelType::Transparent => {
                assert(b[pos] == 0x05);
                assert(spec_repeat(SLPPixelType::Transparent, 0, 1) =~= seq![p]);
                assert(spec_run_cmds(b, pos, done, expected) == spec_with_prefix(
                    spec_repeat(SLPPixelType::Transparent, 0, 1),
                    spec_run_cmds(b, pos + 1, done + 1, expected),
                ));
            },
            SLPPixelType::Player => {
                assert(b[pos] == 0x16);
                assert(b[pos + 1] == sfx[1] && sfx[1] == enc[1] && enc[1] == p.index);
                assert(pos + 1 < b.len());
                assert(spec_draw(b, pos + 1, 1, SLPPixelType::Player) =~= seq![p]);
                assert(spec_run_cmds(b, pos, done, expected) == spec_with_prefix(
                    spec_draw(b, pos + 1, 1, SLPPixelType::Player),
                    spec_run_cmds(b, pos + 2, done + 1, expected),
                ));
            },
            SLPPixelType::Shadow => {
                assert(b[pos] == 0x1B);
                assert(spec_repeat(SLPPixelType::Shadow, 0, 1) =~= seq![p]);
                assert(spec_run_cmds(b, pos, done, expected) == spec_with_prefix(
                    spec_repeat(SLPPixelType::Shadow, 0, 1),
                    spec_run_cmds(b, pos + 1, done + 1, expected),
                ));
            },
            SLPPixelType::Special1 => {
                assert(b[pos] == 0x4E);
                assert(seq![spec_px(SLPPixelType::Special1, 0)] =~= seq![p]);
                assert(spec_run_cmds(b, pos, done, expected) == spec_with_prefix(
                    seq![spec_px(SLPPixelType::Special1, 0)],
                    spec_run_cmds(b, pos + 1, done + 1, expected),
                ));
            },
            SLPPixelType::Special2 => {
                assert(b[pos] == 0x6E);
                assert(seq![spec_px(SLPPixelType::Special2, 0)] =~= seq![p]);
                assert(spec_run_cmds(b, pos, done, expected) == spec_with_prefix(
                    seq![spec_px(SLPPixelType::Special2, 0)],
                    spec_run_cmds(b, pos + 1, done + 1, expected),
                ));
            },
            _ => {
                assert(false);
            },
        }
    }
}

/// Law: the row command interpreter is a faithful inverse of the reference
/// encoder. Decoding the command stream that encodes any sequence of
/// encodable pixels reproduces exactly that sequence and stops at the
/// stream's end-of-row byte.
pub proof fn lemma_round_trip(pixels: Seq<PalettePixel>)
    requires
        forall|k: int| 0 <= k < pixels.len() ==> spec_encodable(#[trigger] pixels[k]),
    ensures
        spec_run_cmds(spec_encode_cmds(pixels), 0, 0, pixels.len() as int) == (RowOutcome::Pixels {
            pixels,
            end: spec_encode_cmds(pixels).len() - 1,
        }),
{
    let b = spec_encode_cmds(pixels);
    assert(b.subrange(0, b.len() as int) =~= b);
    lemma_encode_decode_at(b, 0, 0, pixels, pixels.len() as int);
}

/// The reference encoder: one count-one command per pixel, closed by the
/// end-of-row marker.
#[verifier::loop_isolation(false)]
pub fn encode_row_commands(pixels: &Vec<PalettePixel>) -> (r: Vec<u8>)
    requires
        forall|k: int| 0 <= k < pixels@.len() ==> spec_encodable(#[trigger] pixels@[k]),
    ensures
        r@ == spec_encode_cmds(pixels@),
{
    let mut bytes: Vec<u8> = Vec::new();
    proof {
        assert(bytes@ =~= spec_encode_pixels(pixels@.subrange(0, 0)));
    }
    let mut i: usize = 0;
    while i < pixels.len()
        invariant
            i <= pixels@.len(),
            bytes@ == spec_encode_pixels(pixels@.subrange(0, i as int)),
        decreases pixels@.len() - i,
    {
        let p = pixels[i];
        match p.pixel_type {
            SLPPixelType::Palette => {
                bytes.push(0x04);
                bytes.push(p.index);
            },
            SLPPixelType::Transparent => {
                bytes.push(0x05);
            },
            SLPPixelType::Player => {
                bytes.push(0x16);
                bytes.push(p.index);
            },
            SLPPixelType::Shadow => {
                bytes.push(0x1B);
            },
            SLPPixelType::Special1 => {
                bytes.push(0x4E);
            },
            SLPPixelType::Special2 => {
                bytes.push(0x6E);
            },
            _ => {
                proof {
                    assert(false);
                }
            },
        }
        i = i + 1;
        proof {
            let pre = pixels@.subrange(0, i - 1);
            lemma_encode_pixels_push(pre, p);
            assert(pre.push(p) =~= pixels@.subrange(0, i as int));
            assert(bytes@ =~= spec_encode_pixels(pre) + spec_encode_pixel(p));
        }
    }
    bytes.push(0x0F);
    proof {
        assert(pixels@.subrange(0, pixels@.len() as int) =~= pixels@);
        assert(bytes@ =~= spec_encode_cmds(pixels@));
    }
    bytes
}


/// Law: an end-of-row byte at the very start of a stream terminates the
/// interpreter immediately with no pixels emitted; that is a success exactly
/// when no pixels were expected, and an overrun otherwise.
pub proof fn lemma_terminator_first(b: Seq<u8>, pos: int, expected: int)
    requires
        0 <= pos < b.len(),
        b[pos] & 0x0F == 0x0F,
        expected >= 0,
    ensures
        expected == 0 ==> spec_run_cmds(b, pos, 0, expected) == (RowOutcome::Pixels {
            pixels: Seq::<PalettePixel>::empty(),
            end: pos,
        }),
        expected > 0 ==> spec_run_cmds(b, pos, 0, expected) == (RowOutcome::Overrun {
            offset: pos,
        }),
{
}

} // verus!
