//! Platform-independent CMAF (Common Media Application Format) muxer for H.264 video streams.
//!
//! A CMAF muxer and an H.264 Annex B parser suitable for live streaming (DASH/HLS), Media
//! Source Extensions in browsers, and low-latency video delivery. The boxes that the muxer
//! writes are laid out in [`layout`].

pub mod demux;
pub mod fields;
pub mod layout;
pub mod nal_unit_type;
pub mod round_trip;
pub mod timeline;

use crate::annex_b::{
    annex_b_nals, last_of_type, nal_type_of, nals_are_not_empty, opt_view, put_nal, split_nals, views,
    with_start_code,
};
use crate::endian::{
    be16, be16_truncates, be32, be32_truncates, be64, be64_truncates, bits32, bits64, low16, low32, put_be16, put_be32, put_be64,
    put_bytes, put_zeros,
};
use layout::{
    avc1_box, avc1_fields, avcc_box, avcc_content, compressor_name, dinf_box, dref_box,
    ftyp_box, full, handler_name, hdlr_box, init_segment, matrix, mdat_box, mdhd_box, mdia_box,
    media_segment, mfhd_box, minf_box, moof_box, moov_box, mp4_box, mvex_box, mvhd_box, payload,
    profile, sample_entries, sample_entry, stbl_box, stco_box, stsc_box, stsd_box, stsz_box,
    stts_box, styp_box, tag, tfdt_box, tfhd_box, tkhd_box, traf_box, trak_box, trex_box, trun_box,
    vmhd_box, zeros, Sample, Track,
};
use nal_unit_type::{IDR_SLICE, NON_IDR_SLICE, PPS, SPS};
use vstd::arithmetic::div_mod::lemma_mod_multiples_vanish;
use vstd::prelude::*;

verus! {

/// A single H.264 NAL unit.
#[derive(Debug, Clone)]
pub struct NalUnit {
    /// The raw NAL unit data (without length prefix, without start code).
    pub data: Vec<u8>,
    /// NAL unit type (from first byte & 0x1F).
    pub nal_type: u8,
}

/// What a [`NalUnit`] holds.
#[verifier::ext_equal]
pub struct Nal {
    pub data: Seq<u8>,
    pub nal_type: u8,
}

impl View for NalUnit {
    type V = Nal;

    open spec fn view(&self) -> Nal {
        Nal { data: self.data@, nal_type: self.nal_type }
    }
}

/// What a sequence of [`NalUnit`]s holds.
pub open spec fn nal_views(nals: Seq<NalUnit>) -> Seq<Nal> {
    Seq::new(nals.len(), |i: int| nals[i]@)
}

impl Nal {
    /// A video slice (IDR or non-IDR).
    pub open spec fn is_slice(self) -> bool {
        self.nal_type == IDR_SLICE || self.nal_type == NON_IDR_SLICE
    }
}

impl NalUnit {
    /// Returns true if this NAL unit is an IDR (keyframe) slice.
    pub fn is_idr(&self) -> (r: bool)
        ensures
            r == (self@.nal_type == IDR_SLICE),
    {
        self.nal_type == IDR_SLICE
    }

    /// Returns true if this NAL unit is an SPS.
    pub fn is_sps(&self) -> (r: bool)
        ensures
            r == (self@.nal_type == SPS),
    {
        self.nal_type == SPS
    }

    /// Returns true if this NAL unit is a PPS.
    pub fn is_pps(&self) -> (r: bool)
        ensures
            r == (self@.nal_type == PPS),
    {
        self.nal_type == PPS
    }

    /// Returns true if this NAL unit is a video slice (IDR or non-IDR).
    pub fn is_slice(&self) -> (r: bool)
        ensures
            r == self@.is_slice(),
    {
        self.nal_type == IDR_SLICE || self.nal_type == NON_IDR_SLICE
    }

    /// Convert NAL unit to Annex B format (with 0x00000001 start code).
    pub fn to_annex_b(&self) -> (r: Vec<u8>)
        ensures
            r@ == with_start_code(self@.data),
    {
        let mut result: Vec<u8> = Vec::new();
        put_nal(&mut result, &self.data);
        assert(result@ =~= with_start_code(self.data@));
        result
    }
}

/// A parsed Annex B frame with separated NAL units.
#[derive(Debug)]
pub struct ParsedFrame {
    /// Slice NAL units (non-SPS/PPS NALs).
    pub nals: Vec<NalUnit>,
    /// SPS data if present (without start code).
    pub sps: Option<Vec<u8>>,
    /// PPS data if present (without start code).
    pub pps: Option<Vec<u8>>,
    /// Whether this frame contains a keyframe (IDR slice).
    pub is_keyframe: bool,
}

/// The NAL units that are neither SPS nor PPS, with their types.
pub open spec fn other_nals(nals: Seq<Seq<u8>>) -> Seq<Nal>
    decreases nals.len(),
{
    if nals.len() == 0 {
        Seq::empty()
    } else {
        let before = other_nals(nals.drop_last());
        let t = nal_type_of(nals.last());
        if t == SPS || t == PPS {
            before
        } else {
            before.push(Nal { data: nals.last(), nal_type: t })
        }
    }
}

/// Whether one of the NAL units is an IDR slice.
pub open spec fn holds_idr(nals: Seq<Seq<u8>>) -> bool {
    exists|i: int| 0 <= i < nals.len() && nal_type_of(#[trigger] nals[i]) == IDR_SLICE
}

/// Parse raw Annex B H.264 data into structured NAL units.
///
/// Splits on 3-byte (0x000001) and 4-byte (0x00000001) start codes,
/// extracts SPS/PPS/slice NALs, and determines keyframe status. Where a parameter set occurs
/// more than once, the last one counts.
pub fn parse_annex_b(data: &[u8]) -> (frame: ParsedFrame)
    ensures
        nal_views(frame.nals@) == other_nals(annex_b_nals(data@)),
        opt_view(frame.sps) == last_of_type(annex_b_nals(data@), SPS),
        opt_view(frame.pps) == last_of_type(annex_b_nals(data@), PPS),
        frame.is_keyframe == holds_idr(annex_b_nals(data@)),
{
    let mut nals: Vec<NalUnit> = Vec::new();
    let mut sps: Option<Vec<u8>> = None;
    let mut pps: Option<Vec<u8>> = None;
    let mut is_keyframe = false;

    let units = split_nals(data);
    let ghost all = annex_b_nals(data@);
    proof {
        nals_are_not_empty(data@);
    }
    assert(nal_views(nals@) =~= other_nals(all.take(0)));
    let mut idx: usize = 0;
    while idx < units.len()
        invariant
            idx <= units.len(),
            views(units@) == all,
            forall|i: int| 0 <= i < all.len() ==> (#[trigger] all[i]).len() > 0,
            nal_views(nals@) == other_nals(all.take(idx as int)),
            opt_view(sps) == last_of_type(all.take(idx as int), SPS),
            opt_view(pps) == last_of_type(all.take(idx as int), PPS),
            is_keyframe == holds_idr(all.take(idx as int)),
        decreases units.len() - idx,
    {
        let unit = &units[idx];
        assert(unit@ == all[idx as int]);
        let nal_type: u8 = unit[0] % 32;
        let ghost upto = all.take(idx as int);
        let ghost now = all.take(idx + 1);
        assert(now.drop_last() =~= upto);
        assert(now.last() == unit@);
        let ghost was_keyframe = is_keyframe;
        let ghost nals_before = nal_views(nals@);
        let bytes = vstd::slice::slice_to_vec(unit.as_slice());
        if nal_type == SPS {
            sps = Some(bytes);
        } else if nal_type == PPS {
            pps = Some(bytes);
        } else {
            if nal_type == IDR_SLICE {
                is_keyframe = true;
            }
            nals.push(NalUnit { data: bytes, nal_type });
            assert(nal_views(nals@) =~= nals_before.push(Nal { data: unit@, nal_type }));
        }
        assert(is_keyframe == holds_idr(now)) by {
            if was_keyframe {
                let k = choose|i: int|
                    0 <= i < upto.len() && nal_type_of(#[trigger] upto[i]) == IDR_SLICE;
                assert(now[k] == upto[k]);
            }
            if nal_type == IDR_SLICE {
                assert(nal_type_of(now[idx as int]) == IDR_SLICE);
            }
            if holds_idr(now) && nal_type != IDR_SLICE {
                let k = choose|i: int|
                    0 <= i < now.len() && nal_type_of(#[trigger] now[i]) == IDR_SLICE;
                assert(upto[k] == now[k]);
            }
        }
        idx = idx + 1;
    }
    assert(all.take(idx as int) =~= all);
    ParsedFrame { nals, sps, pps, is_keyframe }
}

/// Configuration for the CMAF muxer.
#[derive(Debug, Clone)]
pub struct CmafConfig {
    /// Target fragment duration in milliseconds.
    /// Fragments are aligned to keyframes, so actual duration may vary.
    pub fragment_duration_ms: u32,
    /// Timescale for timestamps (e.g., 90000 for standard video).
    pub timescale: u32,
}

impl Default for CmafConfig {
    fn default() -> (r: Self)
        ensures
            r.fragment_duration_ms == 2000,
            r.timescale == 90000,
    {
        CmafConfig { fragment_duration_ms: 2000, timescale: 90000 }
    }
}

/// A pending frame waiting to be muxed.
#[derive(Debug, Clone)]
struct PendingFrame {
    /// Encoded NAL unit data (in AVCC format for mdat)
    data: Vec<u8>,
    /// Duration in timescale units
    duration: u32,
    /// Is this a sync sample (keyframe)
    is_sync: bool,
    /// Composition time offset (PTS - DTS)
    composition_offset: i32,
}

impl PendingFrame {
    spec fn sample(self) -> Sample {
        Sample {
            data: self.data@,
            duration: self.duration,
            is_sync: self.is_sync,
            composition_offset: self.composition_offset,
        }
    }
}

/// Fragmented MP4 muxer for H.264 video streams.
pub struct CmafMuxer {
    config: CmafConfig,
    /// Whether initialization segment has been created
    initialized: bool,
    /// Width in pixels
    width: u32,
    /// Height in pixels
    height: u32,
    /// SPS data (without NAL start code)
    sps: Vec<u8>,
    /// PPS data (without NAL start code)
    pps: Vec<u8>,
    /// Pending frames for current fragment
    pending_frames: Vec<PendingFrame>,
    /// Current fragment sequence number
    sequence_number: u32,
    /// Base DTS for current fragment
    fragment_base_dts: i64,
    /// Last frame's DTS
    last_dts: i64,
    /// Track ID
    track_id: u32,
}

/// The state of a [`CmafMuxer`].
#[verifier::ext_equal]
pub struct MuxerState {
    pub fragment_duration_ms: u32,
    pub track: Track,
    pub initialized: bool,
    pub pending: Seq<Sample>,
    pub sequence_number: u32,
    pub base_dts: i64,
    pub last_dts: i64,
}

/// Division that rounds toward zero, by a positive divisor.
pub open spec fn truncated_quotient(a: int, b: int) -> int {
    if a >= 0 {
        a / b
    } else {
        -(-a / b)
    }
}

/// Length-prefixed NAL units one after another.
pub open spec fn length_prefixed(nals: Seq<Seq<u8>>) -> Seq<u8>
    decreases nals.len(),
{
    if nals.len() == 0 {
        Seq::empty()
    } else {
        length_prefixed(nals.drop_last()) + be32(nals.last().len() as int) + nals.last()
    }
}

/// The bytes of the video slices.
pub open spec fn slices(nals: Seq<Nal>) -> Seq<Seq<u8>>
    decreases nals.len(),
{
    if nals.len() == 0 {
        Seq::empty()
    } else if nals.last().is_slice() {
        slices(nals.drop_last()).push(nals.last().data)
    } else {
        slices(nals.drop_last())
    }
}

impl MuxerState {
    /// The media segment that the pending frames make.
    pub open spec fn segment(self) -> Seq<u8> {
        media_segment(self.sequence_number, self.track.track_id, self.base_dts, self.pending)
    }

    /// After the pending frames have been written.
    pub open spec fn flushed(self) -> MuxerState {
        MuxerState {
            pending: Seq::empty(),
            sequence_number: (self.sequence_number + 1) as u32,
            ..self
        }
    }

    /// How long the pending frames last up to `dts`, in milliseconds.
    pub open spec fn elapsed_ms(self, dts: i64) -> int {
        truncated_quotient((dts - self.base_dts) * 1000, self.track.timescale as int)
    }

    /// Whether a frame starts a new fragment: a keyframe that comes no earlier than the
    /// target duration.
    pub open spec fn should_flush(self, dts: i64, is_keyframe: bool) -> bool {
        &&& self.initialized
        &&& self.pending.len() > 0
        &&& is_keyframe
        &&& self.elapsed_ms(dts) >= self.fragment_duration_ms
    }

    /// Whether the arithmetic on a frame's times stays in range.
    pub open spec fn accepts(self, pts: i64, dts: i64, is_keyframe: bool) -> bool {
        self.initialized ==> {
            &&& i64::MIN <= pts - dts <= i64::MAX
            &&& self.pending.len() > 0 ==> {
                &&& self.track.timescale > 0
                &&& i64::MIN <= dts - self.base_dts <= i64::MAX
                &&& i64::MIN <= (dts - self.base_dts) * 1000 <= i64::MAX
            }
            &&& self.should_flush(dts, is_keyframe) ==> self.sequence_number < u32::MAX
        }
    }

    /// After a frame has been added, behind what was pending.
    pub open spec fn with_frame(
        self,
        nals: Seq<Nal>,
        pts: i64,
        dts: i64,
        duration: u32,
        is_keyframe: bool,
    ) -> MuxerState {
        MuxerState {
            pending: self.pending.push(
                Sample {
                    data: length_prefixed(slices(nals)),
                    duration,
                    is_sync: is_keyframe,
                    composition_offset: (pts - dts) as i32,
                },
            ),
            base_dts: if self.pending.len() == 0 {
                dts
            } else {
                self.base_dts
            },
            last_dts: dts,
            ..self
        }
    }

    /// After a frame has been added.
    pub open spec fn frame_added(
        self,
        nals: Seq<Nal>,
        pts: i64,
        dts: i64,
        duration: u32,
        is_keyframe: bool,
    ) -> MuxerState {
        if !self.initialized {
            self
        } else if self.should_flush(dts, is_keyframe) {
            self.flushed().with_frame(nals, pts, dts, duration, is_keyframe)
        } else {
            self.with_frame(nals, pts, dts, duration, is_keyframe)
        }
    }
}

fn put_tag(buf: &mut Vec<u8>, a: char, b: char, c: char, d: char)
    ensures
        final(buf)@ == old(buf)@ + tag(a, b, c, d),
{
    buf.push(a as u8);
    buf.push(b as u8);
    buf.push(c as u8);
    buf.push(d as u8);
    assert(buf@ =~= old(buf)@ + tag(a, b, c, d));
}

fn box_size(len: usize) -> (size: u32)
    ensures
        size == (8 + len) % 0x1_0000_0000,
{
    low32(len as u64).wrapping_add(8)
}

/// Appends the size of a box with `len` bytes of content.
fn put_box_size(buf: &mut Vec<u8>, len: usize)
    ensures
        final(buf)@ == old(buf)@ + be32(8 + len as int),
{
    let size: u32 = box_size(len);
    proof {
        be32_truncates(8 + len as int, size as int);
    }
    put_be32(buf, size);
}

/// Appends the low 32 bits of a length.
pub fn put_len32(buf: &mut Vec<u8>, len: usize)
    ensures
        final(buf)@ == old(buf)@ + be32(len as int),
{
    proof {
        be32_truncates(len as int, len as int % 0x1_0000_0000);
    }
    put_be32(buf, low32(len as u64));
}

/// Appends the low 16 bits of a number.
fn put_low16(buf: &mut Vec<u8>, x: u64)
    ensures
        final(buf)@ == old(buf)@ + be16(x as int),
{
    proof {
        be16_truncates(x as int, x as int % 0x1_0000);
    }
    put_be16(buf, low16(x));
}

/// Appends the low 16 bits of a number as 16.16 fixed point.
fn put_fixed(buf: &mut Vec<u8>, x: u32)
    ensures
        final(buf)@ == old(buf)@ + be32(x * 0x1_0000),
{
    proof {
        assert(x == x / 0x1_0000 * 0x1_0000 + x % 0x1_0000);
        be32_truncates(x * 0x1_0000, (x % 0x1_0000) * 0x1_0000);
    }
    put_be32(buf, (x % 0x1_0000) * 0x1_0000);
}

/// Appends the two's complement of `x`.
fn put_signed32(buf: &mut Vec<u8>, x: i32)
    ensures
        final(buf)@ == old(buf)@ + be32(x as int),
{
    let bits: u32 = bits32(x);
    proof {
        be32_truncates(x as int, bits as int);
    }
    put_be32(buf, bits);
}

/// Appends the two's complement of `x`.
fn put_signed64(buf: &mut Vec<u8>, x: i64)
    ensures
        final(buf)@ == old(buf)@ + be64(x as int),
{
    let bits: u64 = bits64(x);
    proof {
        be64_truncates(x as int, bits as int);
    }
    put_be64(buf, bits);
}

/// Appends the distance from the start of moof to the payload, for `count` samples.
fn put_data_offset(buf: &mut Vec<u8>, count: usize)
    ensures
        final(buf)@ == old(buf)@ + be32(96 + 16 * count as int),
{
    let offset: u32 = low32(96 + 16 * low32(count as u64) as u64);
    proof {
        let (high, low) = (count as int / 0x1_0000_0000, count as int % 0x1_0000_0000);
        assert(96 + 16 * count as int == 0x1_0000_0000 * (16 * high) + (96 + 16 * low));
        lemma_mod_multiples_vanish(16 * high, 96 + 16 * low, 0x1_0000_0000);
        be32_truncates(96 + 16 * count as int, offset as int);
    }
    put_be32(buf, offset);
}

fn put_box(buf: &mut Vec<u8>, a: char, b: char, c: char, d: char, content: &[u8])
    ensures
        final(buf)@ == old(buf)@ + mp4_box(tag(a, b, c, d), content@),
{
    put_box_size(buf, content.len());
    put_tag(buf, a, b, c, d);
    put_bytes(buf, content);
    assert(buf@ =~= old(buf)@ + mp4_box(tag(a, b, c, d), content@));
}

fn full_box(version: u8, f2: u8, f1: u8, f0: u8) -> (content: Vec<u8>)
    ensures
        content@ == full(version, f2, f1, f0),
{
    let mut content: Vec<u8> = Vec::new();
    content.push(version);
    content.push(f2);
    content.push(f1);
    content.push(f0);
    assert(content@ =~= full(version, f2, f1, f0));
    content
}

fn put_matrix(buf: &mut Vec<u8>)
    ensures
        final(buf)@ == old(buf)@ + matrix(),
{
    put_be32(buf, 0x0001_0000);
    put_be32(buf, 0);
    put_be32(buf, 0);
    put_be32(buf, 0);
    put_be32(buf, 0x0001_0000);
    put_be32(buf, 0);
    put_be32(buf, 0);
    put_be32(buf, 0);
    put_be32(buf, 0x4000_0000);
    assert(buf@ =~= old(buf)@ + matrix());
}

impl View for CmafMuxer {
    type V = MuxerState;

    closed spec fn view(&self) -> MuxerState {
        MuxerState {
            fragment_duration_ms: self.config.fragment_duration_ms,
            track: self.track(),
            initialized: self.initialized,
            pending: Seq::new(self.pending_frames@.len(), |i: int| self.pending_frames@[i].sample()),
            sequence_number: self.sequence_number,
            base_dts: self.fragment_base_dts,
            last_dts: self.last_dts,
        }
    }
}

impl CmafMuxer {
    spec fn track(&self) -> Track {
        Track {
            timescale: self.config.timescale,
            track_id: self.track_id,
            width: self.width,
            height: self.height,
            sps: self.sps@,
            pps: self.pps@,
        }
    }

    /// Create a new CMAF muxer with the given configuration.
    pub fn new(config: CmafConfig) -> (r: Self)
        ensures
            r@ == (MuxerState {
                fragment_duration_ms: config.fragment_duration_ms,
                track: Track {
                    timescale: config.timescale,
                    track_id: 1,
                    width: 0,
                    height: 0,
                    sps: Seq::empty(),
                    pps: Seq::empty(),
                },
                initialized: false,
                pending: Seq::empty(),
                sequence_number: 1,
                base_dts: 0,
                last_dts: 0,
            }),
    {
        let r = CmafMuxer {
            config,
            initialized: false,
            width: 0,
            height: 0,
            sps: Vec::new(),
            pps: Vec::new(),
            pending_frames: Vec::new(),
            sequence_number: 1,
            fragment_base_dts: 0,
            last_dts: 0,
            track_id: 1,
        };
        assert(r@.pending =~= Seq::empty());
        r
    }

    /// Create the initialization segment (ftyp + moov).
    ///
    /// This must be called once before adding frames. The initialization segment
    /// contains codec configuration (SPS/PPS) and must be sent before any media
    /// segments.
    pub fn create_init_segment(
        &mut self,
        sps: &[u8],
        pps: &[u8],
        width: u32,
        height: u32,
    ) -> (segment: Vec<u8>)
        ensures
            final(self)@ == (MuxerState {
                initialized: true,
                track: Track { width, height, sps: sps@, pps: pps@, ..old(self)@.track },
                ..old(self)@
            }),
            segment@ == init_segment(final(self)@.track),
    {
        self.sps = vstd::slice::slice_to_vec(sps);
        self.pps = vstd::slice::slice_to_vec(pps);
        self.width = width;
        self.height = height;
        self.initialized = true;
        assert(self@.pending =~= old(self)@.pending);

        let mut buf: Vec<u8> = Vec::new();
        self.write_ftyp(&mut buf);
        self.write_moov(&mut buf);
        assert(buf@ =~= init_segment(self.track()));
        buf
    }

    /// Add an encoded frame to the muxer.
    ///
    /// Returns a media segment when enough frames have accumulated or when a
    /// new keyframe arrives after the target fragment duration.
    pub fn add_frame(
        &mut self,
        nal_units: &[NalUnit],
        pts: i64,
        dts: i64,
        duration: u32,
        is_keyframe: bool,
    ) -> (segment: Option<Vec<u8>>)
        requires
            old(self)@.accepts(pts, dts, is_keyframe),
        ensures
            final(self)@ == old(self)@.frame_added(
                nal_views(nal_units@),
                pts,
                dts,
                duration,
                is_keyframe,
            ),
            opt_view(segment) == (if old(self)@.should_flush(dts, is_keyframe) {
                Some(old(self)@.segment())
            } else {
                None
            }),
    {
        if !self.initialized {
            return None;
        }
        let should_flush = if self.pending_frames.is_empty() {
            false
        } else {
            let scaled: i64 = (dts - self.fragment_base_dts) * 1000;
            is_keyframe && Self::reached(
                scaled,
                self.config.timescale,
                self.config.fragment_duration_ms,
            )
        };
        let segment = if should_flush {
            Some(self.flush_fragment())
        } else {
            None
        };
        let ghost ready = self@;
        let data = Self::nal_units_to_avcc(nal_units);
        if self.pending_frames.is_empty() {
            self.fragment_base_dts = dts;
        }
        let difference: i64 = pts - dts;
        let composition_offset: i32 = #[verifier::truncate] (difference as i32);
        self.pending_frames.push(
            PendingFrame { data, duration, is_sync: is_keyframe, composition_offset },
        );
        self.last_dts = dts;
        assert(self@.pending =~= ready.with_frame(
            nal_views(nal_units@),
            pts,
            dts,
            duration,
            is_keyframe,
        ).pending);
        segment
    }

    /// Whether a frame can be added: false where its times, or the number of the segment that it
    /// completes, no longer fit.
    pub fn has_room(&self, pts: i64, dts: i64, is_keyframe: bool) -> (r: bool)
        ensures
            r == self@.accepts(pts, dts, is_keyframe),
    {
        if !self.initialized {
            return true;
        }
        let difference: i128 = pts as i128 - dts as i128;
        if difference < i64::MIN as i128 || difference > i64::MAX as i128 {
            return false;
        }
        if self.pending_frames.is_empty() {
            return true;
        }
        let elapsed: i128 = dts as i128 - self.fragment_base_dts as i128;
        let scaled: i128 = elapsed * 1000;
        if self.config.timescale == 0 || scaled < i64::MIN as i128 || scaled > i64::MAX as i128 {
            return false;
        }
        let should_flush = is_keyframe && Self::reached(
            scaled as i64,
            self.config.timescale,
            self.config.fragment_duration_ms,
        );
        !should_flush || self.sequence_number < u32::MAX
    }

    /// Whether `scaled / timescale`, rounded toward zero, is at least `target`.
    fn reached(scaled: i64, timescale: u32, target: u32) -> (r: bool)
        requires
            timescale > 0,
        ensures
            r == (truncated_quotient(scaled as int, timescale as int) >= target),
    {
        if scaled >= 0 {
            scaled as u64 / timescale as u64 >= target as u64
        } else {
            let magnitude: u64 = (-(scaled as i128)) as u64;
            target == 0 && magnitude / timescale as u64 == 0
        }
    }

    /// Flush any remaining frames as a final segment.
    pub fn flush(&mut self) -> (segment: Option<Vec<u8>>)
        requires
            old(self)@.pending.len() > 0 ==> old(self)@.sequence_number < u32::MAX,
        ensures
            old(self)@.pending.len() == 0 ==> segment is None && final(self)@ == old(self)@,
            old(self)@.pending.len() > 0 ==> opt_view(segment) == Some(old(self)@.segment())
                && final(self)@ == old(self)@.flushed(),
    {
        if self.pending_frames.is_empty() {
            return None;
        }
        Some(self.flush_fragment())
    }

    /// Convert NAL units to AVCC format (length-prefixed). Only video slices are kept.
    fn nal_units_to_avcc(nal_units: &[NalUnit]) -> (data: Vec<u8>)
        ensures
            data@ == length_prefixed(slices(nal_views(nal_units@))),
    {
        let mut buf: Vec<u8> = Vec::new();
        let ghost all = nal_views(nal_units@);
        let mut idx: usize = 0;
        while idx < nal_units.len()
            invariant
                idx <= nal_units@.len(),
                all == nal_views(nal_units@),
                buf@ == length_prefixed(slices(all.take(idx as int))),
            decreases nal_units@.len() - idx,
        {
            let nal = &nal_units[idx];
            let ghost upto = slices(all.take(idx as int));
            assert(all.take(idx + 1).drop_last() =~= all.take(idx as int));
            assert(all.take(idx + 1).last() == nal@);
            if nal.is_slice() {
                put_len32(&mut buf, nal.data.len());
                put_bytes(&mut buf, &nal.data);
                assert(upto.push(nal.data@).drop_last() =~= upto);
            }
            idx = idx + 1;
        }
        assert(all.take(idx as int) =~= all);
        buf
    }

    /// Create a media segment from pending frames.
    fn flush_fragment(&mut self) -> (segment: Vec<u8>)
        requires
            old(self)@.sequence_number < u32::MAX,
        ensures
            segment@ == old(self)@.segment(),
            final(self)@ == old(self)@.flushed(),
    {
        let mut buf: Vec<u8> = Vec::new();
        self.write_styp(&mut buf);
        self.write_moof(&mut buf);
        self.write_mdat(&mut buf);
        assert(buf@ =~= self@.segment());

        self.sequence_number = self.sequence_number + 1;
        self.pending_frames.clear();
        assert(self@.pending =~= Seq::empty());
        buf
    }

    /// Get the current sequence number.
    pub fn sequence_number(&self) -> (r: u32)
        ensures
            r == self@.sequence_number,
    {
        self.sequence_number
    }

    /// Check if the muxer has been initialized.
    pub fn is_initialized(&self) -> (r: bool)
        ensures
            r == self@.initialized,
    {
        self.initialized
    }

    /// Get the number of pending frames.
    pub fn pending_frame_count(&self) -> (r: usize)
        ensures
            r == self@.pending.len(),
    {
        self.pending_frames.len()
    }

    /// File type and brands.
    pub fn write_ftyp(&self, buf: &mut Vec<u8>)
        ensures
            final(buf)@ == old(buf)@ + ftyp_box(),
    {
        let mut content: Vec<u8> = Vec::new();
        put_tag(&mut content, 'i', 's', 'o', 'm');
        assert(content@ =~= tag('i', 's', 'o', 'm'));
        put_be32(&mut content, 0);
        put_tag(&mut content, 'i', 's', 'o', 'm');
        put_tag(&mut content, 'i', 's', 'o', '6');
        put_tag(&mut content, 'c', 'm', 'f', 'c');
        put_tag(&mut content, 'c', 'm', 'f', 'v');
        put_tag(&mut content, 'a', 'v', 'c', '1');
        put_tag(&mut content, 'm', 'p', '4', '1');
        put_box(buf, 'f', 't', 'y', 'p', &content);
    }

    /// Segment type and brands.
    fn write_styp(&self, buf: &mut Vec<u8>)
        ensures
            final(buf)@ == old(buf)@ + styp_box(),
    {
        let mut content: Vec<u8> = Vec::new();
        put_tag(&mut content, 'c', 'm', 'f', 'v');
        assert(content@ =~= tag('c', 'm', 'f', 'v'));
        put_be32(&mut content, 0);
        put_tag(&mut content, 'm', 's', 'd', 'h');
        put_tag(&mut content, 'm', 's', 'i', 'x');
        put_tag(&mut content, 'c', 'm', 'f', 'c');
        put_tag(&mut content, 'c', 'm', 'f', 'v');
        put_box(buf, 's', 't', 'y', 'p', &content);
    }

    /// Movie header, track, and the extension that fragments need.
    fn write_moov(&self, buf: &mut Vec<u8>)
        ensures
            final(buf)@ == old(buf)@ + moov_box(self@.track),
    {
        let mut content: Vec<u8> = Vec::new();
        self.write_mvhd(&mut content);
        assert(content@ =~= mvhd_box(self@.track));
        self.write_trak(&mut content);
        self.write_mvex(&mut content);
        put_box(buf, 'm', 'o', 'o', 'v', &content);
    }

    /// Movie header.
    fn write_mvhd(&self, buf: &mut Vec<u8>)
        ensures
            final(buf)@ == old(buf)@ + mvhd_box(self@.track),
    {
        let mut content = full_box(0, 0, 0, 0);
        put_be32(&mut content, 0);
        put_be32(&mut content, 0);
        put_be32(&mut content, self.config.timescale);
        put_be32(&mut content, 0);
        put_be32(&mut content, 0x0001_0000);
        put_be16(&mut content, 0x0100);
        put_zeros(&mut content, 2);
        put_zeros(&mut content, 8);
        put_matrix(&mut content);
        put_zeros(&mut content, 24);
        put_be32(&mut content, 2);
        put_box(buf, 'm', 'v', 'h', 'd', &content);
    }

    /// Track.
    fn write_trak(&self, buf: &mut Vec<u8>)
        ensures
            final(buf)@ == old(buf)@ + trak_box(self@.track),
    {
        let mut content: Vec<u8> = Vec::new();
        self.write_tkhd(&mut content);
        assert(content@ =~= tkhd_box(self@.track));
        self.write_mdia(&mut content);
        put_box(buf, 't', 'r', 'a', 'k', &content);
    }

    /// Track header.
    fn write_tkhd(&self, buf: &mut Vec<u8>)
        ensures
            final(buf)@ == old(buf)@ + tkhd_box(self@.track),
    {
        let mut content = full_box(0, 0, 0, 3);
        put_be32(&mut content, 0);
        put_be32(&mut content, 0);
        put_be32(&mut content, self.track_id);
        put_be32(&mut content, 0);
        put_be32(&mut content, 0);
        put_zeros(&mut content, 8);
        put_be16(&mut content, 0);
        put_be16(&mut content, 0);
        put_be16(&mut content, 0);
        put_be16(&mut content, 0);
        put_matrix(&mut content);
        put_fixed(&mut content, self.width);
        put_fixed(&mut content, self.height);
        put_box(buf, 't', 'k', 'h', 'd', &content);
    }

    /// Media.
    fn write_mdia(&self, buf: &mut Vec<u8>)
        ensures
            final(buf)@ == old(buf)@ + mdia_box(self@.track),
    {
        let mut content: Vec<u8> = Vec::new();
        self.write_mdhd(&mut content);
        assert(content@ =~= mdhd_box(self@.track));
        self.write_hdlr(&mut content);
        self.write_minf(&mut content);
        put_box(buf, 'm', 'd', 'i', 'a', &content);
    }

    /// Media header.
    fn write_mdhd(&self, buf: &mut Vec<u8>)
        ensures
            final(buf)@ == old(buf)@ + mdhd_box(self@.track),
    {
        let mut content = full_box(0, 0, 0, 0);
        put_be32(&mut content, 0);
        put_be32(&mut content, 0);
        put_be32(&mut content, self.config.timescale);
        put_be32(&mut content, 0);
        put_be16(&mut content, 0x55c4);
        put_be16(&mut content, 0);
        put_box(buf, 'm', 'd', 'h', 'd', &content);
    }

    /// Handler.
    fn write_hdlr(&self, buf: &mut Vec<u8>)
        ensures
            final(buf)@ == old(buf)@ + hdlr_box(),
    {
        let mut content = full_box(0, 0, 0, 0);
        put_be32(&mut content, 0);
        put_tag(&mut content, 'v', 'i', 'd', 'e');
        put_zeros(&mut content, 12);
        let ghost before = content@;
        put_tag(&mut content, 'V', 'i', 'd', 'e');
        put_tag(&mut content, 'o', 'H', 'a', 'n');
        put_tag(&mut content, 'd', 'l', 'e', 'r');
        put_zeros(&mut content, 1);
        assert(content@ =~= before + handler_name());
        put_box(buf, 'h', 'd', 'l', 'r', &content);
    }

    /// Media information.
    fn write_minf(&self, buf: &mut Vec<u8>)
        ensures
            final(buf)@ == old(buf)@ + minf_box(self@.track),
    {
        let mut content: Vec<u8> = Vec::new();
        self.write_vmhd(&mut content);
        assert(content@ =~= vmhd_box());
        self.write_dinf(&mut content);
        self.write_stbl(&mut content);
        put_box(buf, 'm', 'i', 'n', 'f', &content);
    }

    /// Video media header.
    fn write_vmhd(&self, buf: &mut Vec<u8>)
        ensures
            final(buf)@ == old(buf)@ + vmhd_box(),
    {
        let mut content = full_box(0, 0, 0, 1);
        put_be16(&mut content, 0);
        put_zeros(&mut content, 6);
        put_box(buf, 'v', 'm', 'h', 'd', &content);
    }

    /// Data information: the media stands in the same file.
    fn write_dinf(&self, buf: &mut Vec<u8>)
        ensures
            final(buf)@ == old(buf)@ + dinf_box(),
    {
        let mut dref = full_box(0, 0, 0, 0);
        put_be32(&mut dref, 1);
        put_be32(&mut dref, 12);
        put_tag(&mut dref, 'u', 'r', 'l', ' ');
        let flags = full_box(0, 0, 0, 1);
        put_bytes(&mut dref, &flags);
        let mut content: Vec<u8> = Vec::new();
        put_box(&mut content, 'd', 'r', 'e', 'f', &dref);
        assert(content@ =~= dref_box());
        put_box(buf, 'd', 'i', 'n', 'f', &content);
    }

    /// Sample table.
    fn write_stbl(&self, buf: &mut Vec<u8>)
        ensures
            final(buf)@ == old(buf)@ + stbl_box(self@.track),
    {
        let mut content: Vec<u8> = Vec::new();
        self.write_stsd(&mut content);
        assert(content@ =~= stsd_box(self@.track));
        self.write_empty_stts(&mut content);
        self.write_empty_stsc(&mut content);
        self.write_empty_stsz(&mut content);
        self.write_empty_stco(&mut content);
        put_box(buf, 's', 't', 'b', 'l', &content);
    }

    /// Sample description: one avc1 entry.
    fn write_stsd(&self, buf: &mut Vec<u8>)
        ensures
            final(buf)@ == old(buf)@ + stsd_box(self@.track),
    {
        let mut content = full_box(0, 0, 0, 0);
        put_be32(&mut content, 1);
        self.write_avc1(&mut content);
        put_box(buf, 's', 't', 's', 'd', &content);
    }

    /// AVC sample entry.
    fn write_avc1(&self, buf: &mut Vec<u8>)
        ensures
            final(buf)@ == old(buf)@ + avc1_box(self@.track),
    {
        let mut content: Vec<u8> = Vec::new();
        put_zeros(&mut content, 6);
        assert(content@ =~= zeros(6));
        put_be16(&mut content, 1);
        put_be16(&mut content, 0);
        put_be16(&mut content, 0);
        put_zeros(&mut content, 12);
        put_low16(&mut content, self.width as u64);
        put_low16(&mut content, self.height as u64);
        put_be32(&mut content, 0x0048_0000);
        put_be32(&mut content, 0x0048_0000);
        put_be32(&mut content, 0);
        put_be16(&mut content, 1);
        let ghost before = content@;
        content.push(8);
        put_tag(&mut content, 'x', 'o', 'q', '-');
        put_tag(&mut content, 'c', 'm', 'a', 'f');
        put_zeros(&mut content, 23);
        assert(content@ =~= before + compressor_name());
        put_be16(&mut content, 0x0018);
        put_be16(&mut content, 0xFFFF);
        assert(content@ == avc1_fields(self@.track));
        self.write_avcc(&mut content);
        put_box(buf, 'a', 'v', 'c', '1', &content);
    }

    /// AVC decoder configuration.
    fn write_avcc(&self, buf: &mut Vec<u8>)
        ensures
            final(buf)@ == old(buf)@ + avcc_box(self@.track),
    {
        let mut content: Vec<u8> = Vec::new();
        content.push(1);
        if self.sps.len() >= 4 {
            content.push(self.sps[1]);
            content.push(self.sps[2]);
            content.push(self.sps[3]);
        } else {
            content.push(0x64);
            content.push(0x00);
            content.push(0x1f);
        }
        content.push(0xFF);
        content.push(0xE1);
        assert(content@ =~= seq![1u8] + profile(self.sps@) + seq![0xFFu8, 0xE1u8]);
        put_low16(&mut content, self.sps.len() as u64);
        put_bytes(&mut content, &self.sps);
        let ghost before = content@;
        content.push(1);
        assert(content@ =~= before + seq![1u8]);
        put_low16(&mut content, self.pps.len() as u64);
        put_bytes(&mut content, &self.pps);
        assert(content@ == avcc_content(self.sps@, self.pps@));
        put_box(buf, 'a', 'v', 'c', 'C', &content);
    }

    /// Decoding times: none, they stand in the fragments.
    fn write_empty_stts(&self, buf: &mut Vec<u8>)
        ensures
            final(buf)@ == old(buf)@ + stts_box(),
    {
        let mut content = full_box(0, 0, 0, 0);
        put_be32(&mut content, 0);
        put_box(buf, 's', 't', 't', 's', &content);
    }

    /// Sample-to-chunk map: empty.
    fn write_empty_stsc(&self, buf: &mut Vec<u8>)
        ensures
            final(buf)@ == old(buf)@ + stsc_box(),
    {
        let mut content = full_box(0, 0, 0, 0);
        put_be32(&mut content, 0);
        put_box(buf, 's', 't', 's', 'c', &content);
    }

    /// Sample sizes: none.
    fn write_empty_stsz(&self, buf: &mut Vec<u8>)
        ensures
            final(buf)@ == old(buf)@ + stsz_box(),
    {
        let mut content = full_box(0, 0, 0, 0);
        put_be32(&mut content, 0);
        put_be32(&mut content, 0);
        put_box(buf, 's', 't', 's', 'z', &content);
    }

    /// Chunk offsets: none.
    fn write_empty_stco(&self, buf: &mut Vec<u8>)
        ensures
            final(buf)@ == old(buf)@ + stco_box(),
    {
        let mut content = full_box(0, 0, 0, 0);
        put_be32(&mut content, 0);
        put_box(buf, 's', 't', 'c', 'o', &content);
    }

    /// Movie extends.
    fn write_mvex(&self, buf: &mut Vec<u8>)
        ensures
            final(buf)@ == old(buf)@ + mvex_box(self@.track),
    {
        let mut content: Vec<u8> = Vec::new();
        self.write_trex(&mut content);
        assert(content@ =~= trex_box(self@.track));
        put_box(buf, 'm', 'v', 'e', 'x', &content);
    }

    /// Track extends: the fragments give all defaults.
    fn write_trex(&self, buf: &mut Vec<u8>)
        ensures
            final(buf)@ == old(buf)@ + trex_box(self@.track),
    {
        let mut content = full_box(0, 0, 0, 0);
        put_be32(&mut content, self.track_id);
        put_be32(&mut content, 1);
        put_be32(&mut content, 0);
        put_be32(&mut content, 0);
        put_be32(&mut content, 0);
        put_box(buf, 't', 'r', 'e', 'x', &content);
    }

    /// Movie fragment.
    fn write_moof(&self, buf: &mut Vec<u8>)
        ensures
            final(buf)@ == old(buf)@ + moof_box(
                self@.sequence_number,
                self@.track.track_id,
                self@.base_dts,
                self@.pending,
            ),
    {
        let mut content: Vec<u8> = Vec::new();
        self.write_mfhd(&mut content);
        assert(content@ =~= mfhd_box(self@.sequence_number));
        self.write_traf(&mut content);
        put_box(buf, 'm', 'o', 'o', 'f', &content);
    }

    /// Movie fragment header.
    fn write_mfhd(&self, buf: &mut Vec<u8>)
        ensures
            final(buf)@ == old(buf)@ + mfhd_box(self@.sequence_number),
    {
        let mut content = full_box(0, 0, 0, 0);
        put_be32(&mut content, self.sequence_number);
        put_box(buf, 'm', 'f', 'h', 'd', &content);
    }

    /// Track fragment.
    fn write_traf(&self, buf: &mut Vec<u8>)
        ensures
            final(buf)@ == old(buf)@ + traf_box(
                self@.track.track_id,
                self@.base_dts,
                self@.pending,
            ),
    {
        let mut content: Vec<u8> = Vec::new();
        self.write_tfhd(&mut content);
        assert(content@ =~= tfhd_box(self@.track.track_id));
        self.write_tfdt(&mut content);
        self.write_trun(&mut content);
        put_box(buf, 't', 'r', 'a', 'f', &content);
    }

    /// Track fragment header.
    fn write_tfhd(&self, buf: &mut Vec<u8>)
        ensures
            final(buf)@ == old(buf)@ + tfhd_box(self@.track.track_id),
    {
        let mut content = full_box(0, 2, 0, 0);
        put_be32(&mut content, self.track_id);
        put_box(buf, 't', 'f', 'h', 'd', &content);
    }

    /// Decode time of the first frame.
    fn write_tfdt(&self, buf: &mut Vec<u8>)
        ensures
            final(buf)@ == old(buf)@ + tfdt_box(self@.base_dts),
    {
        let mut content = full_box(1, 0, 0, 0);
        put_signed64(&mut content, self.fragment_base_dts);
        put_box(buf, 't', 'f', 'd', 't', &content);
    }

    /// Track run: where the payload starts, and duration, size, flags and composition offset
    /// of each frame.
    fn write_trun(&self, buf: &mut Vec<u8>)
        ensures
            final(buf)@ == old(buf)@ + trun_box(self@.pending),
    {
        let ghost pending = self@.pending;
        let mut content = full_box(0, 0x00, 0x0F, 0x01);
        put_len32(&mut content, self.pending_frames.len());
        put_data_offset(&mut content, self.pending_frames.len());
        let ghost head = content@;
        let mut idx: usize = 0;
        assert(content@ =~= head + sample_entries(pending.take(0)));
        while idx < self.pending_frames.len()
            invariant
                idx <= self.pending_frames@.len(),
                pending == self@.pending,
                content@ == head + sample_entries(pending.take(idx as int)),
            decreases self.pending_frames@.len() - idx,
        {
            let frame = &self.pending_frames[idx];
            let ghost before = content@;
            assert(pending.take(idx + 1).drop_last() =~= pending.take(idx as int));
            assert(pending.take(idx + 1).last() == frame.sample());
            let flags: u32 = if frame.is_sync {
                0x0200_0000
            } else {
                0x0101_0000
            };
            put_be32(&mut content, frame.duration);
            put_len32(&mut content, frame.data.len());
            put_be32(&mut content, flags);
            put_signed32(&mut content, frame.composition_offset);
            assert(content@ =~= before + sample_entry(frame.sample()));
            idx = idx + 1;
            assert(content@ =~= head + sample_entries(pending.take(idx as int)));
        }
        assert(pending.take(idx as int) =~= pending);
        put_box(buf, 't', 'r', 'u', 'n', &content);
    }

    /// Media data: the frames' bytes one after another.
    fn write_mdat(&self, buf: &mut Vec<u8>)
        ensures
            final(buf)@ == old(buf)@ + mdat_box(self@.pending),
    {
        let mut content: Vec<u8> = Vec::new();
        let ghost pending = self@.pending;
        let mut idx: usize = 0;
        while idx < self.pending_frames.len()
            invariant
                idx <= self.pending_frames@.len(),
                pending == self@.pending,
                content@ == payload(pending.take(idx as int)),
            decreases self.pending_frames@.len() - idx,
        {
            let frame = &self.pending_frames[idx];
            assert(pending.take(idx + 1).drop_last() =~= pending.take(idx as int));
            assert(pending.take(idx + 1).last() == frame.sample());
            put_bytes(&mut content, &frame.data);
            idx = idx + 1;
        }
        assert(pending.take(idx as int) =~= pending);
        put_box(buf, 'm', 'd', 'a', 't', &content);
    }
}

} // verus!
