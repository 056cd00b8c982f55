//! Camera server: what is sent to clients and to a relay for each captured frame.

use crate::annex_b::{opt_view, views};
use crate::camera::RawFormat;
use crate::cmaf::demux::{scan_init, Scan, StreamParams};
use crate::cmaf::layout::{init_segment, Track};
use crate::cmaf::round_trip::{init_segment_reads_back, read_back};
use crate::cmaf::timeline::{keyframes_complete_long_segments, times_add_up};
use crate::cmaf::{length_prefixed, nal_views, slices, CmafConfig, CmafMuxer, MuxerState, Nal, ParsedFrame};
use crate::endian::{low32, put_bytes};
use crate::frame::{jpeg_file, Frame, FrameError};
use crate::opencv::{encode_relay_frame, frame_header_reads_back, relay_frame, FrameHeader};
use crate::rates::{fits_exactly, rounded_down};
use vstd::prelude::*;
use vstd::slice::slice_to_vec;

verus! {

/// ALPN protocol of a server that sends a JPEG frame for each request.
pub const CAMERA_ALPN: &'static str = "xoq/camera/0";

/// ALPN protocol of a server that streams JPEG frames.
pub const CAMERA_JPEG_ALPN: &'static str = "xoq/camera-jpeg/0";

/// ALPN protocol of a server that streams H.264 frames.
pub const CAMERA_H264_ALPN: &'static str = "xoq/camera-h264/0";

/// How a camera server encodes.
#[derive(Debug, Clone, Copy, PartialEq, Eq, Structural)]
pub struct Encoding {
    pub jpeg_quality: u8,
}

impl Encoding {
    /// Quality 80.
    pub fn new() -> (r: Self)
        ensures
            r.jpeg_quality == 80,
    {
        Encoding { jpeg_quality: 80 }
    }

    /// Set JPEG compression quality (1-100, default 80).
    pub fn set_quality(&mut self, quality: u8)
        ensures
            final(self).jpeg_quality == (if quality < 1 {
                1
            } else if quality > 100 {
                100
            } else {
                quality
            }),
    {
        self.jpeg_quality = if quality < 1 {
            1
        } else if quality > 100 {
            100
        } else {
            quality
        };
    }
}

/// Whether a client that sent `count` bytes asks for a frame; `None` stands for the end of the
/// stream and for an error.
pub fn wants_frame(count: Option<usize>) -> (r: bool)
    ensures
        r == (count matches Some(n) && n > 0),
{
    match count {
        Some(n) => n > 0,
        None => false,
    }
}

/// A frame as it is sent to a client: a header, then the encoded data.
pub open spec fn message(width: u32, height: u32, timestamp_us: u64, data: Seq<u8>) -> Seq<u8> {
    FrameHeader {
        width,
        height,
        timestamp_us,
        length: (data.len() as int % 0x1_0000_0000) as u32,
    }.bytes() + data
}

/// Makes the message for an encoded frame.
pub fn frame_message(width: u32, height: u32, timestamp_us: u64, data: &[u8]) -> (r: Vec<u8>)
    ensures
        r@ == message(width, height, timestamp_us, data@),
{
    let header = FrameHeader { width, height, timestamp_us, length: low32(data.len() as u64) };
    let mut out = header.encode();
    put_bytes(&mut out, data);
    out
}

/// What is sent for an encoded frame reads back: its header, then its data.
pub proof fn message_reads_back(width: u32, height: u32, timestamp_us: u64, data: Seq<u8>)
    requires
        data.len() < 0x1_0000_0000,
    ensures
        ({
            let s = message(width, height, timestamp_us, data);
            &&& FrameHeader::read(s) == (FrameHeader {
                width,
                height,
                timestamp_us,
                length: data.len() as u32,
            })
            &&& s.skip(20) == data
        }),
{
    let header = FrameHeader { width, height, timestamp_us, length: data.len() as u32 };
    assert((data.len() as int % 0x1_0000_0000) as u32 == header.length);
    frame_header_reads_back(header, data);
}

/// Compresses a frame and makes the message for a client on a direct connection.
pub fn jpeg_message(frame: &Frame, quality: u8) -> (r: Result<Vec<u8>, FrameError>)
    ensures
        match r {
            Ok(m) => frame.encodable() && m@ == message(
                frame.width,
                frame.height,
                frame.timestamp_us,
                jpeg_file(frame.width, frame.height, frame.data@, quality),
            ),
            Err(e) => frame.refused_with(e),
        },
{
    match frame.to_jpeg(quality) {
        Ok(jpeg) => Ok(frame_message(frame.width, frame.height, frame.timestamp_us, &jpeg)),
        Err(e) => Err(e),
    }
}

/// Compresses a frame and makes the message for a relay.
pub fn relayed_jpeg_message(frame: &Frame, quality: u8) -> (r: Result<Vec<u8>, FrameError>)
    ensures
        match r {
            Ok(m) => frame.encodable() && m@ == relay_frame(
                frame.width,
                frame.height,
                frame.timestamp_us,
                jpeg_file(frame.width, frame.height, frame.data@, quality),
            ),
            Err(e) => frame.refused_with(e),
        },
{
    match frame.to_jpeg(quality) {
        Ok(jpeg) => Ok(encode_relay_frame(frame.width, frame.height, frame.timestamp_us, &jpeg)),
        Err(e) => Err(e),
    }
}

/// How sending an H.264 frame to a client went.
#[derive(Debug, Clone, Copy, PartialEq, Eq, Structural)]
pub enum Sending {
    Sent,
    Failed,
    /// It took longer than 5 seconds.
    TimedOut,
}

/// The pause before the next frame in milliseconds, so that the connection can catch up, or `None`
/// where the client is given up.
pub fn after_sending(sending: Sending) -> (r: Option<u64>)
    ensures
        r == (if sending == Sending::Sent {
            Some(30u64)
        } else {
            None
        }),
{
    match sending {
        Sending::Sent => Some(30),
        _ => None,
    }
}

/// When frame `n` of an H.264 stream is shown, in microseconds.
pub open spec fn shown_at_us(n: u64, fps: u32) -> int {
    n as int * 1_000_000 / fps as int
}

/// Frame `n` is shown `n` periods after the first, rounded down to microseconds: whole seconds after
/// whole multiples of the rate.
pub proof fn frame_times_keep_to_the_rate(n: u64, fps: u32, seconds: u64)
    requires
        fps > 0,
    ensures
        shown_at_us(n, fps) * fps <= n * 1_000_000,
        n * 1_000_000 < (shown_at_us(n, fps) + 1) * fps,
        n == seconds * fps ==> shown_at_us(n, fps) == seconds * 1_000_000,
{
    rounded_down(n as int * 1_000_000, fps as int);
    if n == seconds * fps {
        let (s, f) = (seconds as int, fps as int);
        assert(s * 1_000_000 * f == n * 1_000_000 && n * 1_000_000 < (s * 1_000_000 + 1) * f) by (nonlinear_arith)
            requires
                n == s * f,
                f > 0,
        ;
        fits_exactly(s * 1_000_000, n as int * 1_000_000, f);
    }
}

/// When frame `n` of an H.264 stream is shown, in microseconds.
pub fn frame_time_us(n: u64, fps: u32) -> (r: u64)
    requires
        fps > 0,
        n * 1_000_000 <= u64::MAX,
    ensures
        r == shown_at_us(n, fps),
{
    n * 1_000_000 / fps as u64
}

/// How an H.264 encoder is set up. The preset refreshes pictures bit by bit, which not every
/// decoder can start from: whole pictures are asked for instead, with their parameter sets.
#[derive(Debug, Clone, Copy, PartialEq, Eq, Structural)]
pub struct H264Settings {
    /// Frames from one whole picture to the next.
    pub gop_length: u32,
    pub idr_period: u32,
    /// 1: every other frame is predicted from the one before it.
    pub frame_interval_p: i32,
    pub average_bitrate: u32,
    pub max_bitrate: u32,
    /// Size of the rate control buffer, in bits.
    pub vbv_buffer_size: u32,
    pub intra_refresh: bool,
    pub repeat_parameter_sets: bool,
}

impl H264Settings {
    /// The settings for a frame rate and a bitrate: a whole picture each second, and a buffer for
    /// one frame's worth of bits.
    pub fn new(fps: u32, bitrate: u32) -> (r: Self)
        requires
            fps > 0,
        ensures
            r == (H264Settings {
                gop_length: fps,
                idr_period: fps,
                frame_interval_p: 1,
                average_bitrate: bitrate,
                max_bitrate: bitrate,
                vbv_buffer_size: bitrate / fps,
                intra_refresh: false,
                repeat_parameter_sets: true,
            }),
            r.vbv_buffer_size * fps <= bitrate < (r.vbv_buffer_size + 1) * fps,
    {
        proof {
            rounded_down(bitrate as int, fps as int);
        }
        H264Settings {
            gop_length: fps,
            idr_period: fps,
            frame_interval_p: 1,
            average_bitrate: bitrate,
            max_bitrate: bitrate,
            vbv_buffer_size: bitrate / fps,
            intra_refresh: false,
            repeat_parameter_sets: true,
        }
    }
}

/// What an encoder is given.
#[derive(Debug, Clone, Copy, PartialEq, Eq, Structural)]
pub enum EncoderInput {
    /// The captured YUYV frame.
    Yuyv,
    /// The captured grey frame.
    Grey,
    /// A frame that is captured anew, as RGB.
    Rgb,
}

/// Whether frames go to the encoder as they are captured.
#[derive(Debug, Clone, Copy, PartialEq, Eq, Structural)]
pub struct RawCapture {
    pub enabled: bool,
}

impl RawCapture {
    /// Frames of cameras that deliver YUYV or grey go as they are.
    pub fn new(is_yuyv: bool, is_grey: bool) -> (r: Self)
        ensures
            r.enabled == (is_yuyv || is_grey),
    {
        RawCapture { enabled: is_yuyv || is_grey }
    }

    /// Says what the encoder is given for a captured frame. After a frame in another format,
    /// frames are captured as RGB.
    pub fn input(&mut self, format: RawFormat) -> (r: EncoderInput)
        ensures
            r == (match format {
                RawFormat::Yuyv => EncoderInput::Yuyv,
                RawFormat::Grey => EncoderInput::Grey,
                _ => EncoderInput::Rgb,
            }),
            final(self).enabled == (old(self).enabled && r != EncoderInput::Rgb),
    {
        match format {
            RawFormat::Yuyv => EncoderInput::Yuyv,
            RawFormat::Grey => EncoderInput::Grey,
            _ => {
                self.enabled = false;
                EncoderInput::Rgb
            },
        }
    }
}

/// How accepting a client went.
#[derive(Debug, Clone, Copy, PartialEq, Eq, Structural)]
pub enum AcceptEvent {
    /// A client opened a stream.
    Client,
    /// A client came, but its stream failed, or accepting failed.
    Failed,
    /// The server is closed.
    Closed,
}

/// What the server does next.
#[derive(Debug, Clone, Copy, PartialEq, Eq, Structural)]
pub enum AcceptStep {
    /// Stream frames until a write fails or takes longer than 5 seconds.
    Stream,
    /// Wait for the next client.
    Wait,
    /// Stop.
    Stop,
}

/// Decides what follows an attempt to accept a client.
pub fn accept_step(event: AcceptEvent) -> (r: AcceptStep)
    ensures
        r == (match event {
            AcceptEvent::Client => AcceptStep::Stream,
            AcceptEvent::Failed => AcceptStep::Wait,
            AcceptEvent::Closed => AcceptStep::Stop,
        }),
{
    match event {
        AcceptEvent::Client => AcceptStep::Stream,
        AcceptEvent::Failed => AcceptStep::Wait,
        AcceptEvent::Closed => AcceptStep::Stop,
    }
}

/// How long a server that has ended waits before it is started again, in milliseconds. One that
/// ended without a failure is not started again.
pub fn restart_after_ms(failed: bool) -> (r: Option<u64>)
    ensures
        r == (if failed {
            Some(5000u64)
        } else {
            None
        }),
{
    if failed {
        Some(5000)
    } else {
        None
    }
}

/// The last frame whose number, in units of 1/90000 s, fits into 64 bits with a sign.
const LAST_FRAME_NUMBER: u64 = 102_481_911_520_608;

/// H.264 frames on their way into CMAF segments for a relay.
pub struct CmafFeed {
    muxer: CmafMuxer,
    init: Option<Vec<u8>>,
    frames: u64,
    fps: u32,
    width: u32,
    height: u32,
}

/// State of a [`CmafFeed`].
pub struct Feed {
    pub muxer: MuxerState,
    pub init: Option<Seq<u8>>,
    pub frames: u64,
    pub fps: u32,
    pub width: u32,
    pub height: u32,
}

/// An encoded frame: its NAL units, and the parameter sets that came with it.
pub struct Picture {
    pub nals: Seq<Nal>,
    pub sps: Option<Seq<u8>>,
    pub pps: Option<Seq<u8>>,
    pub is_keyframe: bool,
}

/// What a parsed frame holds.
pub open spec fn picture(frame: ParsedFrame) -> Picture {
    Picture {
        nals: nal_views(frame.nals@),
        sps: opt_view(frame.sps),
        pps: opt_view(frame.pps),
        is_keyframe: frame.is_keyframe,
    }
}

impl Feed {
    /// When the next frame is shown, in units of 1/90000 s.
    pub open spec fn pts(self) -> i64 {
        (self.frames as int * 90000 / self.fps as int) as i64
    }

    /// How long a frame is shown.
    pub open spec fn duration(self) -> u32 {
        (90000u32 / self.fps) as u32
    }

    /// Whether a frame is the first that brings both parameter sets.
    pub open spec fn starts_with(self, p: Picture) -> bool {
        self.init is None && p.sps is Some && p.pps is Some
    }

    /// The state once the init segment has been made, if the frame is the first that allows it.
    pub open spec fn initialized_by(self, p: Picture) -> Feed {
        if self.starts_with(p) {
            let track = Track {
                width: self.width,
                height: self.height,
                sps: p.sps->0,
                pps: p.pps->0,
                ..self.muxer.track
            };
            Feed {
                muxer: MuxerState { initialized: true, track, ..self.muxer },
                init: Some(init_segment(track)),
                ..self
            }
        } else {
            self
        }
    }

    /// The state after a frame.
    pub open spec fn after(self, p: Picture) -> Feed {
        let ready = self.initialized_by(p);
        Feed {
            muxer: ready.muxer.frame_added(
                p.nals,
                self.pts(),
                self.pts(),
                self.duration(),
                p.is_keyframe,
            ),
            frames: (self.frames + 1) as u64,
            ..ready
        }
    }

    /// What a segment is sent as: with the init segment in front of it on keyframes, so that
    /// receivers that come later can start there.
    pub open spec fn published(self, segment: Seq<u8>, is_keyframe: bool) -> Seq<u8> {
        match self.init {
            Some(init) => if is_keyframe {
                init + segment
            } else {
                segment
            },
            None => segment,
        }
    }

    /// What is sent for a frame: the init segment when it is made, and the segment that the
    /// frame completes.
    pub open spec fn messages(self, p: Picture) -> Seq<Seq<u8>> {
        let ready = self.initialized_by(p);
        let first = if self.starts_with(p) {
            seq![ready.init->0]
        } else {
            Seq::empty()
        };
        if ready.muxer.should_flush(self.pts(), p.is_keyframe) {
            first.push(ready.published(ready.muxer.segment(), p.is_keyframe))
        } else {
            first
        }
    }

    /// Whether the arithmetic on a frame's number and times stays in range.
    pub open spec fn accepts(self, p: Picture) -> bool {
        &&& self.frames * 90000 <= i64::MAX
        &&& self.initialized_by(p).muxer.accepts(self.pts(), self.pts(), p.is_keyframe)
    }

    /// What holds of every state that a feed can be in: times count up from 0, no more segments
    /// than frames have been written, there is an init segment once the muxer has begun, and
    /// nothing is pending before that.
    pub open spec fn valid(self) -> bool {
        &&& self.fps > 0
        &&& self.muxer.track.timescale == 90000
        &&& self.muxer.initialized == (self.init is Some)
        &&& self.init is None ==> self.muxer.pending.len() == 0
        &&& 0 <= self.muxer.base_dts <= self.frames * 90000
        &&& 1 <= self.muxer.sequence_number <= self.frames + 1
    }
}

proof fn times_stay_in_range(feed: Feed)
    requires
        feed.valid(),
        feed.frames * 90000 <= i64::MAX,
    ensures
        0 <= feed.pts() <= feed.frames * 90000,
        feed.frames as int * 90000 / feed.fps as int <= feed.frames * 90000,
{
    assert(0 <= feed.frames as int * 90000 / feed.fps as int <= feed.frames * 90000) by (nonlinear_arith)
        requires
            feed.fps > 0,
            feed.frames >= 0,
    ;
}

/// A frame leaves a feed in a valid state.
pub proof fn frame_keeps_feed_valid(feed: Feed, p: Picture)
    requires
        feed.valid(),
        feed.accepts(p),
    ensures
        feed.after(p).valid(),
{
    times_stay_in_range(feed);
}

/// Whatever is sent begins with the init segment: a receiver can start with any message.
pub proof fn every_message_begins_with_init(feed: Feed, p: Picture, i: int)
    requires
        feed.valid(),
        0 <= i < feed.messages(p).len(),
    ensures
        feed.after(p).init matches Some(init) && init.len() <= feed.messages(p)[i].len()
            && feed.messages(p)[i].take(init.len() as int) == init,
{
    let ready = feed.initialized_by(p);
    let m = feed.messages(p)[i];
    let init = ready.init->0;
    assert(init.take(init.len() as int) =~= init);
    if m != init {
        assert(m.take(init.len() as int) =~= init);
    }
}

/// A frame lasts one period of the frame rate, and is shown as many periods after the first as
/// frames came before it, both rounded down to the unit of the track's times.
pub proof fn frames_keep_to_the_rate(feed: Feed)
    requires
        feed.valid(),
        feed.frames * 90000 <= i64::MAX,
    ensures
        feed.duration() * feed.fps <= feed.muxer.track.timescale,
        feed.muxer.track.timescale < (feed.duration() + 1) * feed.fps,
        feed.pts() * feed.fps <= feed.frames * feed.muxer.track.timescale,
        feed.frames * feed.muxer.track.timescale < (feed.pts() + 1) * feed.fps,
{
    times_stay_in_range(feed);
    rounded_down(90000, feed.fps as int);
    rounded_down(feed.frames as int * 90000, feed.fps as int);
}

/// One frame follows the other: where the rate divides the unit of time, a frame ends when the next
/// begins; otherwise the next begins at most one unit later.
pub proof fn frames_follow_each_other(feed: Feed, p: Picture)
    requires
        feed.valid(),
        feed.accepts(p),
        (feed.frames + 1) * 90000 <= i64::MAX,
    ensures
        ({
            let next = feed.after(p);
            let end = feed.pts() + feed.duration();
            &&& end <= next.pts() <= end + 1
            &&& feed.muxer.track.timescale % feed.fps == 0 ==> next.pts() == end
        }),
{
    let next = feed.after(p);
    frame_keeps_feed_valid(feed, p);
    frames_keep_to_the_rate(feed);
    frames_keep_to_the_rate(next);
    rounded_down(90000, feed.fps as int);
    rounded_down(feed.frames as int * 90000, feed.fps as int);
    rounded_down((feed.frames + 1) * 90000, feed.fps as int);
    let (f, a, d, b) = (feed.fps as int, feed.pts() as int, feed.duration() as int, next.pts() as int);
    let n = feed.frames as int;
    assert(a + d <= b <= a + d + 1) by (nonlinear_arith)
        requires
            f > 0,
            a * f <= n * 90000 < (a + 1) * f,
            d * f <= 90000 < (d + 1) * f,
            b * f <= (n + 1) * 90000 < (b + 1) * f,
    ;
    if 90000u32 % feed.fps == 0 {
        assert(b == a + d) by (nonlinear_arith)
            requires
                f > 0,
                a * f <= n * 90000 < (a + 1) * f,
                d * f == 90000,
                b * f <= (n + 1) * 90000 < (b + 1) * f,
        ;
    }
}

/// Whether each frame that waits lasts one period of the frame rate, and is shown when it is decoded.
pub open spec fn paced(feed: Feed) -> bool {
    forall|i: int|
        0 <= i < feed.muxer.pending.len() ==> {
            let s = #[trigger] feed.muxer.pending[i];
            &&& s.duration * feed.fps <= feed.muxer.track.timescale
            &&& feed.muxer.track.timescale < (s.duration + 1) * feed.fps
            &&& s.composition_offset == 0
        }
}

/// The frames that go into segments are paced, and the last one is the frame that was pushed: it
/// is decoded at its time, it is a sync sample if it is a keyframe, and it holds its slices.
pub proof fn pushed_frames_are_paced(feed: Feed, p: Picture)
    requires
        feed.valid(),
        feed.accepts(p),
        paced(feed),
    ensures
        paced(feed.after(p)),
        feed.after(p).muxer.initialized ==> {
            let m = feed.after(p).muxer;
            &&& m.pending.len() > 0
            &&& m.last_dts == feed.pts()
            &&& m.pending.last().is_sync == p.is_keyframe
            &&& m.pending.last().data == length_prefixed(slices(p.nals))
            &&& m.pending.len() == 1 ==> m.base_dts == feed.pts()
        },
        feed.after(p).frames == feed.frames + 1,
{
    frames_keep_to_the_rate(feed);
    let ready = feed.initialized_by(p);
    let after = feed.after(p);
    if ready.muxer.initialized {
        times_add_up(ready.muxer, p.nals, feed.pts(), feed.pts(), feed.duration(), p.is_keyframe);
        assert forall|i: int| 0 <= i < after.muxer.pending.len() implies {
            let s = #[trigger] after.muxer.pending[i];
            &&& s.duration * after.fps <= after.muxer.track.timescale
            &&& after.muxer.track.timescale < (s.duration + 1) * after.fps
            &&& s.composition_offset == 0
        } by {
            if i + 1 < after.muxer.pending.len() {
                assert(after.muxer.pending.drop_last()[i] == after.muxer.pending[i]);
                assert(feed.muxer.pending[i] == after.muxer.pending[i]);
            }
        }
    }
}

impl View for CmafFeed {
    type V = Feed;

    closed spec fn view(&self) -> Feed {
        Feed {
            muxer: self.muxer@,
            init: opt_view(self.init),
            frames: self.frames,
            fps: self.fps,
            width: self.width,
            height: self.height,
        }
    }
}

impl CmafFeed {
    /// A feed of frames of the given size and rate. Each keyframe begins a segment.
    pub fn new(width: u32, height: u32, fps: u32) -> (r: Self)
        requires
            fps > 0,
        ensures
            r@.valid(),
            30 * r@.muxer.fragment_duration_ms <= 1000 < 30 * (r@.muxer.fragment_duration_ms + 1),
            r@ == (Feed {
                muxer: MuxerState {
                    fragment_duration_ms: 33,
                    track: Track {
                        timescale: 90000,
                        track_id: 1,
                        width: 0,
                        height: 0,
                        sps: Seq::empty(),
                        pps: Seq::empty(),
                    },
                    initialized: false,
                    pending: Seq::empty(),
                    sequence_number: 1,
                    base_dts: 0,
                    last_dts: 0,
                },
                init: None,
                frames: 0,
                fps,
                width,
                height,
            }),
    {
        CmafFeed {
            muxer: CmafMuxer::new(CmafConfig { fragment_duration_ms: 33, timescale: 90000 }),
            init: None,
            frames: 0,
            fps,
            width,
            height,
        }
    }

    /// Whether a frame can be taken in: false once its number, its times or the number of its
    /// segment no longer fit.
    pub fn has_room(&self, frame: &ParsedFrame) -> (r: bool)
        requires
            self@.valid(),
        ensures
            r == self@.accepts(picture(*frame)),
    {
        if self.frames > LAST_FRAME_NUMBER {
            return false;
        }
        proof {
            times_stay_in_range(self@);
        }
        let pts: i64 = (self.frames as i64) * 90000 / (self.fps as i64);
        self.init.is_none() || self.muxer.has_room(pts, pts, frame.is_keyframe)
    }

    /// How many frames have been taken in.
    pub fn frame_count(&self) -> (r: u64)
        ensures
            r == self@.frames,
    {
        self.frames
    }

    /// Makes the init segment, if the frame is the first that allows it.
    fn begin(&mut self, frame: &ParsedFrame) -> (r: Vec<Vec<u8>>)
        ensures
            final(self)@ == old(self)@.initialized_by(picture(*frame)),
            views(r@) == (if old(self)@.starts_with(picture(*frame)) {
                seq![final(self)@.init->0]
            } else {
                Seq::empty()
            }),
    {
        let mut messages: Vec<Vec<u8>> = Vec::new();
        assert(views(messages@) =~= Seq::<Seq<u8>>::empty());
        if self.init.is_none() {
            if let Some(sps) = &frame.sps {
                if let Some(pps) = &frame.pps {
                    let init = self.muxer.create_init_segment(sps, pps, self.width, self.height);
                    let copy = slice_to_vec(&init);
                    messages.push(copy);
                    assert(views(messages@) =~= seq![init@]);
                    self.init = Some(init);
                }
            }
        }
        messages
    }

    fn publish(&self, segment: Vec<u8>, is_keyframe: bool) -> (r: Vec<u8>)
        ensures
            r@ == self@.published(segment@, is_keyframe),
    {
        if is_keyframe {
            if let Some(init) = &self.init {
                let mut out = slice_to_vec(init);
                put_bytes(&mut out, &segment);
                return out;
            }
        }
        segment
    }

    /// Takes in a frame and returns what is to be sent.
    pub fn push(&mut self, frame: &ParsedFrame) -> (r: Vec<Vec<u8>>)
        requires
            old(self)@.valid(),
            old(self)@.accepts(picture(*frame)),
        ensures
            final(self)@ == old(self)@.after(picture(*frame)),
            final(self)@.valid(),
            views(r@) == old(self)@.messages(picture(*frame)),
    {
        let ghost p = picture(*frame);
        proof {
            times_stay_in_range(self@);
            frame_keeps_feed_valid(self@, p);
        }
        let mut messages = self.begin(frame);
        let ghost ready = self@;
        let pts: i64 = (self.frames as i64) * 90000 / (self.fps as i64);
        let duration: u32 = 90000 / self.fps;
        let segment = self.muxer.add_frame(&frame.nals, pts, pts, duration, frame.is_keyframe);
        if let Some(segment) = segment {
            let ghost before = views(messages@);
            let out = self.publish(segment, frame.is_keyframe);
            messages.push(out);
            assert(views(messages@) =~= before.push(out@));
        }
        self.frames = self.frames + 1;
        messages
    }
}

/// The first frame that brings both parameter sets makes the init segment, of these sets and the size
/// of the feed. Frames before it and behind it do not change that.
pub proof fn init_segment_is_that_of_the_feed(feed: Feed, p: Picture, t: Track)
    requires
        feed.valid(),
        t.width == feed.width,
        t.height == feed.height,
        t.timescale == feed.muxer.track.timescale,
        t.track_id == feed.muxer.track.track_id,
    ensures
        feed.init is Some ==> feed.after(p).init == feed.init,
        feed.init is None && (p.sps is None || p.pps is None) ==> feed.after(p).init is None,
        feed.init is None && p.sps == Some(t.sps) && p.pps == Some(t.pps) ==> feed.after(p).init == Some(
            init_segment(t),
        ) && feed.after(p).muxer.track == t,
{
    if feed.init is None && p.sps == Some(t.sps) && p.pps == Some(t.pps) {
        assert(feed.initialized_by(p).muxer.track == t);
    }
}

proof fn params_of_the_track(s: Seq<u8>, t: Track)
    requires
        scan_init(s) == Scan::Found(read_back(t)),
        t.width < 0x1_0000,
        t.height < 0x1_0000,
    ensures
        scan_init(s) == Scan::Found(
            StreamParams { sps: t.sps, pps: t.pps, width: t.width, height: t.height },
        ),
{
}

/// A reader finds in the init segment of a feed, whatever follows it, the parameter sets that came
/// with the first frame and the size of the feed.
pub proof fn init_segment_describes_the_feed(feed: Feed, p: Picture, t: Track, init: Seq<u8>, rest: Seq<u8>)
    requires
        feed.valid(),
        feed.init is None,
        feed.width == t.width < 0x1_0000,
        feed.height == t.height < 0x1_0000,
        t.timescale == feed.muxer.track.timescale,
        t.track_id == feed.muxer.track.track_id,
        p.sps == Some(t.sps) && 0 < t.sps.len() < 0x1_0000,
        p.pps == Some(t.pps) && 0 < t.pps.len() < 0x1_0000,
        feed.after(p).init == Some(init),
    ensures
        scan_init(init + rest) == Scan::Found(
            StreamParams { sps: t.sps, pps: t.pps, width: feed.width, height: feed.height },
        ),
{
    init_segment_is_that_of_the_feed(feed, p, t);
    init_segment_reads_back(t, rest);
    params_of_the_track(init + rest, t);
}

/// The unit of time is fine enough for the usual frame rates: their frames last a whole number of units,
/// so that no time is lost from one frame to the next.
pub proof fn usual_rates_are_exact(feed: Feed)
    requires
        feed.valid(),
        feed.fps == 24 || feed.fps == 25 || feed.fps == 30 || feed.fps == 50 || feed.fps == 60,
    ensures
        feed.duration() * feed.fps == feed.muxer.track.timescale,
{
    if feed.fps == 24 {
        assert(feed.duration() == 90000u32 / 24);
    } else if feed.fps == 25 {
        assert(feed.duration() == 90000u32 / 25);
    } else if feed.fps == 30 {
        assert(feed.duration() == 90000u32 / 30);
    } else if feed.fps == 50 {
        assert(feed.duration() == 90000u32 / 50);
    } else {
        assert(feed.duration() == 90000u32 / 60);
    }
}

/// Where segments are to last no longer than a frame at 30 frames a second, every keyframe of a feed
/// that is no faster begins a new segment.
pub proof fn each_keyframe_begins_a_segment(feed: Feed, p: Picture)
    requires
        feed.valid(),
        feed.frames * 90000 <= i64::MAX,
        feed.fps <= 30,
        30 * feed.muxer.fragment_duration_ms <= 1000,
        feed.muxer.initialized,
        feed.muxer.pending.len() > 0,
        feed.muxer.base_dts + feed.duration() <= feed.pts(),
        p.is_keyframe,
    ensures
        feed.muxer.should_flush(feed.pts(), p.is_keyframe),
{
    frames_keep_to_the_rate(feed);
    keyframes_complete_long_segments(feed.muxer, feed.pts(), true);
    let (d, f) = (feed.duration() as int, feed.fps as int);
    assert(d >= 3000) by (nonlinear_arith)
        requires
            90000 < (d + 1) * f,
            0 < f <= 30,
    ;
}

/// What is sent for a keyframe that completes a segment is the init segment and the segment of the
/// frames before it; before the parameter sets have come nothing is sent.
pub proof fn segments_are_sent_when_they_are_complete(feed: Feed, p: Picture)
    requires
        feed.valid(),
    ensures
        feed.init is None && (p.sps is None || p.pps is None) ==> feed.messages(p).len() == 0,
        feed.init matches Some(init) ==> ({
            let complete = feed.muxer.should_flush(feed.pts(), p.is_keyframe);
            &&& feed.messages(p).len() == (if complete {
                1int
            } else {
                0int
            })
            &&& complete && p.is_keyframe ==> feed.messages(p)[0] == init + feed.muxer.segment()
        }),
{
}

} // verus!
