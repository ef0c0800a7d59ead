use vstd::prelude::*;

use crate::slp::definitions::SLP_FRAME_INFO_SIZE;
use crate::slp::definitions::SLP_HEADER_SIZE;
use crate::slp::error::SLPError;
use crate::slp::error::SLPParseError;
use crate::slp::frame::spec_frame_ok;
use crate::slp::frame::spec_frame_decodes;
use crate::slp::frame::spec_frame_unpack_err;
use crate::slp::frame::SLPFrame;
use crate::slp::frame_info::spec_frame_info_data_at;
use crate::slp::frame_info::SLPFrameInfo;
use crate::slp::frame_info::SLPFrameInfoData;
use crate::slp::frame_info::SLPFrameType;
use crate::slp::header::SLPHeader;
use crate::slp::header::SLPHeaderData;
use crate::slp::pixel::PalettePixel;
use crate::slp::unpack::UnpackFixedSize;
use crate::slp::unpack::UnpackFrameData;

verus! {

/// SLP file.
pub struct SLPFile {
    /// SLP header.
    pub header: SLPHeader,
    /// SLP frame infos.
    pub frame_infos: Vec<SLPFrameInfo>,
    /// SLP frames.
    pub frames: Vec<SLPFrame<PalettePixel>>,
}

/// The metadata record of frame `i` in a parsed file.
pub open spec fn spec_frame_info_at(b: Seq<u8>, i: int) -> SLPFrameInfoData {
    spec_frame_info_data_at(b, 32 + 32 * i)
}

/// Whether the metadata record of frame `i` lies inside the buffer.
pub open spec fn spec_frame_info_fits(b: Seq<u8>, i: int) -> bool {
    32 + 32 * i + 32 <= b.len()
}

/// A fully parsed file: the header matches the first 32 bytes, there is one
/// metadata record and one decoded frame per declared frame, and each frame
/// is the decode that its own record locates.
pub open spec fn spec_file_ok(b: Seq<u8>, f: SLPFile) -> bool {
    let n = f.header.data.num_frames as int;
    &&& 32 <= b.len()
    &&& SLPHeaderData::spec_unpacked(b, 0, f.header.data)
    &&& f.frame_infos@.len() == n
    &&& (forall|i: int|
        0 <= i < n ==> (#[trigger] f.frame_infos@[i].data) == spec_frame_info_at(b, i))
    &&& (forall|i: int|
        0 <= i < n ==> f.frame_infos@[i].frame_type == SLPFrameType::Main
            && f.frame_infos@[i].slp_version == f.header.data.version)
    &&& f.frames@.len() == n
    &&& (forall|i: int|
        0 <= i < n ==> #[trigger] spec_frame_ok(b, spec_frame_info_at(b, i), f.frames@[i]))
}

/// The error a failing parse reports: a short header, else the first frame
/// metadata record past the end of the buffer, else the first frame whose
/// decode fails, tagged with its frame and row indices.
pub open spec fn spec_file_err(b: Seq<u8>, e: SLPParseError) -> bool {
    let n = spec_num_frames(b);
    match e {
        SLPParseError::Header { error } => b.len() < 32 && error == (SLPError::TruncatedInput {
            offset: 0,
        }),
        SLPParseError::FrameInfo { frame, error } => {
            &&& b.len() >= 32
            &&& 0 <= frame < n
            &&& !spec_frame_info_fits(b, frame as int)
            &&& (forall|i: int| 0 <= i < frame ==> #[trigger] spec_frame_info_fits(b, i))
            &&& error == (SLPError::TruncatedInput { offset: (32 + 32 * frame) as u64 })
        },
        SLPParseError::Frame { frame, row, error } => {
            &&& b.len() >= 32
            &&& 0 <= frame < n
            &&& (forall|i: int| 0 <= i < n ==> #[trigger] spec_frame_info_fits(b, i))
            &&& (forall|i: int|
                0 <= i < frame ==> #[trigger] spec_frame_decodes(b, spec_frame_info_at(b, i)))
            &&& !spec_frame_decodes(b, spec_frame_info_at(b, frame as int))
            &&& spec_frame_unpack_err(
                b,
                spec_frame_info_at(b, frame as int),
                crate::slp::error::SLPFrameError { row, error },
            )
        },
    }
}

/// The number of frames the header declares.
pub open spec fn spec_num_frames(b: Seq<u8>) -> int {
    crate::slp::read::le32_at(b, 4)
}

/// Parse a single SLP file.
///
/// Reads the header, then one 32-byte metadata record per frame, then
/// decodes every frame. The result is pinned down by `spec_file_ok`; every
/// malformed input yields the typed error of `spec_file_err`.
#[verifier::loop_isolation(false)]
pub fn parse_slp(bytes: Vec<u8>) -> (r: Result<SLPFile, SLPParseError>)
    ensures
        match r {
            Ok(f) => spec_file_ok(bytes@, f),
            Err(e) => spec_file_err(bytes@, e),
        },
{
    let ghost b = bytes@;
    let buffer: &[u8] = bytes.as_slice();
    let blen: usize = buffer.len();

    let header_data = match SLPHeaderData::from_buffer(buffer, 0) {
        Ok(v) => v,
        Err(error) => {
            return Err(SLPParseError::Header { error });
        },
    };
    let header = SLPHeader::from_data(header_data);

    let num_frames: u32 = header.get_num_frames();

    let mut frame_infos = Vec::<SLPFrameInfo>::new();
    let mut i: u32 = 0;
    while i < num_frames
        invariant
            i <= num_frames,
            frame_infos@.len() == i,
            forall|k: int| 0 <= k < i ==> #[trigger] spec_frame_info_fits(b, k),
            forall|k: int|
                0 <= k < i ==> (#[trigger] frame_infos@[k].data) == spec_frame_info_at(b, k),
            forall|k: int|
                0 <= k < i ==> frame_infos@[k].frame_type == SLPFrameType::Main
                    && frame_infos@[k].slp_version == header.data.version,
        decreases num_frames - i,
    {
        let offset: u64 = SLP_HEADER_SIZE as u64 + (i as u64) * (SLP_FRAME_INFO_SIZE as u64);
        if offset + 32u64 > blen as u64 {
            return Err(
                SLPParseError::FrameInfo {
                    frame: i as usize,
                    error: SLPError::TruncatedInput { offset },
                },
            );
        }
        let info_data = match SLPFrameInfoData::from_buffer(buffer, offset as usize) {
            Ok(v) => v,
            Err(error) => {
                proof {
                    assert(false);
                }
                return Err(SLPParseError::FrameInfo { frame: i as usize, error });
            },
        };
        frame_infos.push(SLPFrameInfo::from_data(info_data, SLPFrameType::Main, header.data.version));
        i = i + 1;
    }

    let mut frame_datas = Vec::<SLPFrame<PalettePixel>>::new();
    let mut i: u32 = 0;
    while i < num_frames
        invariant
            i <= num_frames,
            frame_datas@.len() == i,
            frame_infos@.len() == num_frames,
            forall|k: int| 0 <= k < num_frames ==> #[trigger] spec_frame_info_fits(b, k),
            forall|k: int|
                0 <= k < num_frames ==> (#[trigger] frame_infos@[k].data) == spec_frame_info_at(
                    b,
                    k,
                ),
            forall|k: int|
                0 <= k < i ==> #[trigger] spec_frame_ok(
                    b,
                    spec_frame_info_at(b, k),
                    frame_datas@[k],
                ),
        decreases num_frames - i,
    {
        let frame_info = &frame_infos[i as usize];
        let frame = match SLPFrame::from_buffer(buffer, frame_info) {
            Ok(f) => f,
            Err(e) => {
                proof {
                    assert forall|k: int| 0 <= k < i implies #[trigger] spec_frame_decodes(
                        b,
                        spec_frame_info_at(b, k),
                    ) by {
                        crate::slp::frame::lemma_frame_ok_decodes(
                            b,
                            spec_frame_info_at(b, k),
                            frame_datas@[k],
                        );
                    }
                }
                return Err(
                    SLPParseError::Frame { frame: i as usize, row: e.row, error: e.error },
                );
            },
        };
        frame_datas.push(frame);
        i = i + 1;
    }

    Ok(SLPFile { header, frame_infos, frames: frame_datas })
}


/// Law: in a parsed file, every frame's per-row pixel counts sum to that
/// frame's width times its height (a frame of non-positive height holds no
/// pixels).
pub proof fn lemma_file_pixel_totals(b: Seq<u8>, f: SLPFile)
    requires
        spec_file_ok(b, f),
    ensures
        forall|i: int|
            0 <= i < f.frames@.len() ==> #[trigger] crate::slp::frame::spec_pixel_count_sum(
                f.frames@[i].pixels@,
            ) == (if spec_frame_info_at(b, i).height <= 0 {
                0int
            } else {
                spec_frame_info_at(b, i).width as int * spec_frame_info_at(b, i).height as int
            }),
{
    assert forall|i: int|
        0 <= i < f.frames@.len() implies #[trigger] crate::slp::frame::spec_pixel_count_sum(
        f.frames@[i].pixels@,
    ) == (if spec_frame_info_at(b, i).height <= 0 {
        0int
    } else {
        spec_frame_info_at(b, i).width as int * spec_frame_info_at(b, i).height as int
    }) by {
        assert(spec_frame_ok(b, spec_frame_info_at(b, i), f.frames@[i]));
        crate::slp::frame::lemma_frame_pixel_total(b, spec_frame_info_at(b, i), f.frames@[i]);
    }
}

} // verus!
