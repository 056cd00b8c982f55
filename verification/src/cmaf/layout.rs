//! The byte layout of the boxes that the muxer writes.
//!
//! ```text
//! Initialization segment:            Media segment:
//!   ftyp                               styp
//!   moov                               moof
//!     mvhd                               mfhd
//!     trak                               traf
//!       tkhd                               tfhd
//!       mdia                               tfdt
//!         mdhd hdlr                        trun
//!         minf                         mdat
//!           vmhd dinf
//!           stbl
//!             stsd (avc1 (avcC))
//!             stts stsc stsz stco
//!     mvex (trex)
//! ```

use crate::endian::{be16, be32, be32_at, be32_round_trip, be64};
use vstd::prelude::*;

verus! {

/// What the initialization segment says of the track.
#[verifier::ext_equal]
pub struct Track {
    pub timescale: u32,
    pub track_id: u32,
    pub width: u32,
    pub height: u32,
    pub sps: Seq<u8>,
    pub pps: Seq<u8>,
}

/// A frame that waits to be written.
#[verifier::ext_equal]
pub struct Sample {
    /// Length-prefixed NAL units.
    pub data: Seq<u8>,
    pub duration: u32,
    pub is_sync: bool,
    pub composition_offset: i32,
}

/// A four-character code, in ASCII.
pub open spec fn tag(a: char, b: char, c: char, d: char) -> Seq<u8> {
    seq![a as u8, b as u8, c as u8, d as u8]
}

/// Version and flags of a full box.
pub open spec fn full(version: u8, f2: u8, f1: u8, f0: u8) -> Seq<u8> {
    seq![version, f2, f1, f0]
}

pub open spec fn zeros(n: nat) -> Seq<u8> {
    Seq::new(n, |i: int| 0u8)
}

/// A box: its size in 32 bits, its type, its content.
pub open spec fn mp4_box(kind: Seq<u8>, content: Seq<u8>) -> Seq<u8> {
    be32(8 + content.len() as int) + kind + content
}

pub open spec fn ftyp_box() -> Seq<u8> {
    mp4_box(
        tag('f', 't', 'y', 'p'),
        tag('i', 's', 'o', 'm') + be32(0) + tag('i', 's', 'o', 'm') + tag('i', 's', 'o', '6')
            + tag('c', 'm', 'f', 'c') + tag('c', 'm', 'f', 'v') + tag('a', 'v', 'c', '1')
            + tag('m', 'p', '4', '1'),
    )
}

pub open spec fn styp_box() -> Seq<u8> {
    mp4_box(
        tag('s', 't', 'y', 'p'),
        tag('c', 'm', 'f', 'v') + be32(0) + tag('m', 's', 'd', 'h') + tag('m', 's', 'i', 'x')
            + tag('c', 'm', 'f', 'c') + tag('c', 'm', 'f', 'v'),
    )
}

/// The identity transformation matrix.
pub open spec fn matrix() -> Seq<u8> {
    be32(0x0001_0000) + be32(0) + be32(0) + be32(0) + be32(0x0001_0000) + be32(0) + be32(0) + be32(0)
        + be32(0x4000_0000)
}

pub open spec fn mvhd_box(t: Track) -> Seq<u8> {
    mp4_box(
        tag('m', 'v', 'h', 'd'),
        full(0, 0, 0, 0) + be32(0) + be32(0) + be32(t.timescale as int) + be32(0) + be32(0x0001_0000) + be16(
            0x0100,
        ) + zeros(2) + zeros(8) + matrix() + zeros(24) + be32(2),
    )
}

/// Width and height are 16.16 fixed point.
pub open spec fn tkhd_box(t: Track) -> Seq<u8> {
    mp4_box(
        tag('t', 'k', 'h', 'd'),
        full(0, 0, 0, 3) + be32(0) + be32(0) + be32(t.track_id as int) + be32(0) + be32(0) + zeros(8) + be16(0)
            + be16(0) + be16(0) + be16(0) + matrix() + be32(t.width * 0x1_0000) + be32(t.height * 0x1_0000),
    )
}

pub open spec fn mdhd_box(t: Track) -> Seq<u8> {
    mp4_box(
        tag('m', 'd', 'h', 'd'),
        full(0, 0, 0, 0) + be32(0) + be32(0) + be32(t.timescale as int) + be32(0) + be16(0x55c4) + be16(0),
    )
}

/// "VideoHandler" and a terminating zero.
pub open spec fn handler_name() -> Seq<u8> {
    tag('V', 'i', 'd', 'e') + tag('o', 'H', 'a', 'n') + tag('d', 'l', 'e', 'r') + zeros(1)
}

pub open spec fn hdlr_box() -> Seq<u8> {
    mp4_box(
        tag('h', 'd', 'l', 'r'),
        full(0, 0, 0, 0) + be32(0) + tag('v', 'i', 'd', 'e') + zeros(12) + handler_name(),
    )
}

pub open spec fn vmhd_box() -> Seq<u8> {
    mp4_box(tag('v', 'm', 'h', 'd'), full(0, 0, 0, 1) + be16(0) + zeros(6))
}

pub open spec fn dref_box() -> Seq<u8> {
    mp4_box(
        tag('d', 'r', 'e', 'f'),
        full(0, 0, 0, 0) + be32(1) + be32(12) + tag('u', 'r', 'l', ' ') + full(0, 0, 0, 1),
    )
}

pub open spec fn dinf_box() -> Seq<u8> {
    mp4_box(tag('d', 'i', 'n', 'f'), dref_box())
}

/// Profile, compatibility and level: from the SPS, or High 3.1 where it is too short.
pub open spec fn profile(sps: Seq<u8>) -> Seq<u8> {
    if sps.len() >= 4 {
        seq![sps[1], sps[2], sps[3]]
    } else {
        seq![0x64u8, 0x00, 0x1f]
    }
}

pub open spec fn avcc_content(sps: Seq<u8>, pps: Seq<u8>) -> Seq<u8> {
    seq![1u8] + profile(sps) + seq![0xFFu8, 0xE1u8] + be16(sps.len() as int) + sps + seq![1u8] + be16(
        pps.len() as int,
    ) + pps
}

pub open spec fn avcc_box(t: Track) -> Seq<u8> {
    mp4_box(tag('a', 'v', 'c', 'C'), avcc_content(t.sps, t.pps))
}

/// A length byte, "xoq-cmaf", and zeros up to 32 bytes.
pub open spec fn compressor_name() -> Seq<u8> {
    seq![8u8] + tag('x', 'o', 'q', '-') + tag('c', 'm', 'a', 'f') + zeros(23)
}

/// The 78 bytes of a visual sample entry that stand before its boxes.
pub open spec fn avc1_fields(t: Track) -> Seq<u8> {
    zeros(6) + be16(1) + be16(0) + be16(0) + zeros(12) + be16(t.width as int) + be16(t.height as int) + be32(
        0x0048_0000,
    ) + be32(0x0048_0000) + be32(0) + be16(1) + compressor_name() + be16(0x0018) + be16(0xFFFF)
}

pub open spec fn avc1_box(t: Track) -> Seq<u8> {
    mp4_box(tag('a', 'v', 'c', '1'), avc1_fields(t) + avcc_box(t))
}

pub open spec fn stsd_box(t: Track) -> Seq<u8> {
    mp4_box(tag('s', 't', 's', 'd'), full(0, 0, 0, 0) + be32(1) + avc1_box(t))
}

pub open spec fn stts_box() -> Seq<u8> {
    mp4_box(tag('s', 't', 't', 's'), full(0, 0, 0, 0) + be32(0))
}

pub open spec fn stsc_box() -> Seq<u8> {
    mp4_box(tag('s', 't', 's', 'c'), full(0, 0, 0, 0) + be32(0))
}

pub open spec fn stsz_box() -> Seq<u8> {
    mp4_box(tag('s', 't', 's', 'z'), full(0, 0, 0, 0) + be32(0) + be32(0))
}

pub open spec fn stco_box() -> Seq<u8> {
    mp4_box(tag('s', 't', 'c', 'o'), full(0, 0, 0, 0) + be32(0))
}

pub open spec fn stbl_box(t: Track) -> Seq<u8> {
    mp4_box(tag('s', 't', 'b', 'l'), stsd_box(t) + stts_box() + stsc_box() + stsz_box() + stco_box())
}

pub open spec fn minf_box(t: Track) -> Seq<u8> {
    mp4_box(tag('m', 'i', 'n', 'f'), vmhd_box() + dinf_box() + stbl_box(t))
}

pub open spec fn mdia_box(t: Track) -> Seq<u8> {
    mp4_box(tag('m', 'd', 'i', 'a'), mdhd_box(t) + hdlr_box() + minf_box(t))
}

pub open spec fn trak_box(t: Track) -> Seq<u8> {
    mp4_box(tag('t', 'r', 'a', 'k'), tkhd_box(t) + mdia_box(t))
}

pub open spec fn trex_box(t: Track) -> Seq<u8> {
    mp4_box(
        tag('t', 'r', 'e', 'x'),
        full(0, 0, 0, 0) + be32(t.track_id as int) + be32(1) + be32(0) + be32(0) + be32(0),
    )
}

pub open spec fn mvex_box(t: Track) -> Seq<u8> {
    mp4_box(tag('m', 'v', 'e', 'x'), trex_box(t))
}

pub open spec fn moov_box(t: Track) -> Seq<u8> {
    mp4_box(tag('m', 'o', 'o', 'v'), mvhd_box(t) + trak_box(t) + mvex_box(t))
}

/// The initialization segment.
pub open spec fn init_segment(t: Track) -> Seq<u8> {
    ftyp_box() + moov_box(t)
}

pub open spec fn mfhd_box(sequence_number: u32) -> Seq<u8> {
    mp4_box(tag('m', 'f', 'h', 'd'), full(0, 0, 0, 0) + be32(sequence_number as int))
}

/// The flag is default-base-is-moof.
pub open spec fn tfhd_box(track_id: u32) -> Seq<u8> {
    mp4_box(tag('t', 'f', 'h', 'd'), full(0, 2, 0, 0) + be32(track_id as int))
}

pub open spec fn tfdt_box(base_dts: i64) -> Seq<u8> {
    mp4_box(tag('t', 'f', 'd', 't'), full(1, 0, 0, 0) + be64(base_dts as int))
}

/// Duration, size, flags and composition offset of one sample.
pub open spec fn sample_entry(s: Sample) -> Seq<u8> {
    be32(s.duration as int) + be32(s.data.len() as int) + be32(
        if s.is_sync {
            0x0200_0000
        } else {
            0x0101_0000
        },
    ) + be32(s.composition_offset as int)
}

pub open spec fn sample_entries(samples: Seq<Sample>) -> Seq<u8>
    decreases samples.len(),
{
    if samples.len() == 0 {
        Seq::empty()
    } else {
        sample_entries(samples.drop_last()) + sample_entry(samples.last())
    }
}

/// Distance from the start of moof to the first payload byte of mdat.
pub open spec fn data_offset(samples: Seq<Sample>) -> int {
    96 + 16 * samples.len() as int
}

pub open spec fn trun_box(samples: Seq<Sample>) -> Seq<u8> {
    mp4_box(
        tag('t', 'r', 'u', 'n'),
        full(0, 0x00, 0x0F, 0x01) + be32(samples.len() as int) + be32(data_offset(samples)) + sample_entries(
            samples,
        ),
    )
}

pub open spec fn traf_box(track_id: u32, base_dts: i64, samples: Seq<Sample>) -> Seq<u8> {
    mp4_box(
        tag('t', 'r', 'a', 'f'),
        tfhd_box(track_id) + tfdt_box(base_dts) + trun_box(samples),
    )
}

pub open spec fn moof_box(
    sequence_number: u32,
    track_id: u32,
    base_dts: i64,
    samples: Seq<Sample>,
) -> Seq<u8> {
    mp4_box(
        tag('m', 'o', 'o', 'f'),
        mfhd_box(sequence_number) + traf_box(track_id, base_dts, samples),
    )
}

/// The samples' bytes one after another.
pub open spec fn payload(samples: Seq<Sample>) -> Seq<u8>
    decreases samples.len(),
{
    if samples.len() == 0 {
        Seq::empty()
    } else {
        payload(samples.drop_last()) + samples.last().data
    }
}

pub open spec fn mdat_box(samples: Seq<Sample>) -> Seq<u8> {
    mp4_box(tag('m', 'd', 'a', 't'), payload(samples))
}

/// A media segment.
pub open spec fn media_segment(
    sequence_number: u32,
    track_id: u32,
    base_dts: i64,
    samples: Seq<Sample>,
) -> Seq<u8> {
    styp_box() + moof_box(sequence_number, track_id, base_dts, samples) + mdat_box(samples)
}

/// The size field of a box is the box's length.
pub proof fn box_size_is_its_length(kind: Seq<u8>, content: Seq<u8>)
    requires
        kind.len() == 4,
        8 + content.len() < 0x1_0000_0000,
    ensures
        mp4_box(kind, content).len() == 8 + content.len(),
        be32_at(mp4_box(kind, content), 0) == mp4_box(kind, content).len(),
        mp4_box(kind, content).subrange(4, 8) == kind,
        mp4_box(kind, content).skip(8) == content,
{
    let b = mp4_box(kind, content);
    be32_round_trip(8 + content.len() as int);
    assert(be32_at(b, 0) == be32_at(be32(8 + content.len() as int), 0));
    assert(b.subrange(4, 8) =~= kind);
    assert(b.skip(8) =~= content);
}

proof fn sample_entries_len(samples: Seq<Sample>)
    ensures
        sample_entries(samples).len() == 16 * samples.len(),
    decreases samples.len(),
{
    if samples.len() > 0 {
        sample_entries_len(samples.drop_last());
    }
}

proof fn box_len(kind: Seq<u8>, content: Seq<u8>)
    ensures
        mp4_box(kind, content).len() == 4 + kind.len() + content.len(),
{
}

proof fn trun_len(samples: Seq<Sample>)
    ensures
        trun_box(samples).len() == 20 + 16 * samples.len(),
{
    sample_entries_len(samples);
}

proof fn traf_len(track_id: u32, base_dts: i64, samples: Seq<Sample>)
    ensures
        traf_box(track_id, base_dts, samples).len() == 64 + 16 * samples.len(),
{
    trun_len(samples);
    let content = tfhd_box(track_id) + tfdt_box(base_dts) + trun_box(samples);
    assert(tfhd_box(track_id).len() == 16);
    assert(tfdt_box(base_dts).len() == 20);
    box_len(tag('t', 'r', 'a', 'f'), content);
}

/// Length of a movie fragment.
pub proof fn moof_len(sequence_number: u32, track_id: u32, base_dts: i64, samples: Seq<Sample>)
    ensures
        moof_box(sequence_number, track_id, base_dts, samples).len() == 88 + 16 * samples.len(),
{
    traf_len(track_id, base_dts, samples);
    let content = mfhd_box(sequence_number) + traf_box(track_id, base_dts, samples);
    assert(mfhd_box(sequence_number).len() == 16);
    box_len(tag('m', 'o', 'o', 'f'), content);
}

/// Counted from the start of moof, `data_offset` is where the payload of mdat begins.
pub proof fn data_offset_is_where_the_payload_starts(
    sequence_number: u32,
    track_id: u32,
    base_dts: i64,
    samples: Seq<Sample>,
)
    ensures
        ({
            let moof_on = moof_box(sequence_number, track_id, base_dts, samples) + mdat_box(samples);
            &&& data_offset(samples) <= moof_on.len()
            &&& moof_on.skip(data_offset(samples)) == payload(samples)
        }),
{
    moof_len(sequence_number, track_id, base_dts, samples);
    payload_follows(moof_box(sequence_number, track_id, base_dts, samples), payload(samples));
}

proof fn payload_follows(moof: Seq<u8>, content: Seq<u8>)
    ensures
        (moof + mp4_box(tag('m', 'd', 'a', 't'), content)).len() == moof.len() + 8 + content.len(),
        (moof + mp4_box(tag('m', 'd', 'a', 't'), content)).skip(moof.len() as int + 8) == content,
{
    assert((moof + mp4_box(tag('m', 'd', 'a', 't'), content)).skip(moof.len() as int + 8) =~= content);
}

} // verus!
