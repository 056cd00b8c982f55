//! Client side of a remote camera.
//!
//! The camera server offers its stream over a direct connection, with the encoding chosen by
//! the ALPN protocol, or over a relay, with the encoding chosen by the track. What a client
//! asks for, what it makes of the bytes that arrive, and when it gives up is decided here.

pub mod vtdec;

use crate::annex_b::{
    annex_b_nals, annex_b_stream, join_nals, last_of_type, last_of_type_is_the_last, nal_type_of,
    nals_are_not_empty, opt_view, put_nal, split_nals, stream_splits_into_its_nals, streamable,
    type_is_in_the_low_bits, views, with_start_code,
};
use crate::cmaf::demux::{
    init_segment_readable, media_nals, media_segment_readable, parse_cmaf_init_segment,
    parse_cmaf_media_segment, scan_init, split_prefixed, Scan, StreamParams,
};
use crate::cmaf::layout::{init_segment, media_segment, payload, Sample, Track};
use crate::cmaf::round_trip::{
    init_segment_reads_back, joined, media_segment_reads_back, prefixed_nals_split_back, read_back,
    samples_of,
};
use crate::cmaf::timeline::all_but_parameter_sets_are_kept;
use crate::cmaf::nal_unit_type::{PPS, SPS};
use crate::cmaf::{length_prefixed, other_nals, put_len32, Nal};
use crate::endian::{
    get_le32, get_le64, le32, le32_at, le32_read, le32_truncates, le64, le64_at,
    le64_reads, low32, put_bytes, put_le32, put_le64,
};
use crate::frame::{picture_in, Frame};
use vstd::prelude::*;

verus! {

/// The bytes of NAL units.
pub open spec fn nal_bytes(nals: Seq<Nal>) -> Seq<Seq<u8>> {
    Seq::new(nals.len(), |i: int| nals[i].data)
}

/// Parse an Annex B byte stream into individual NAL units.
/// Returns a list of (nal_type, nal_bytes) pairs, where nal_bytes excludes the start code.
pub fn parse_annex_b(data: &[u8]) -> (r: Vec<(u8, Vec<u8>)>)
    ensures
        r@.len() == annex_b_nals(data@).len(),
        forall|i: int|
            0 <= i < r@.len() ==> (#[trigger] r@[i]).1@ == annex_b_nals(data@)[i] && r@[i].0
                == nal_type_of(annex_b_nals(data@)[i]),
{
    let units = split_nals(data);
    let ghost all = annex_b_nals(data@);
    proof {
        nals_are_not_empty(data@);
    }
    let mut nals: Vec<(u8, Vec<u8>)> = Vec::new();
    let mut idx: usize = 0;
    while idx < units.len()
        invariant
            idx <= units.len(),
            views(units@) == all,
            forall|i: int| 0 <= i < all.len() ==> (#[trigger] all[i]).len() > 0,
            nals@.len() == idx,
            forall|i: int|
                0 <= i < idx ==> (#[trigger] nals@[i]).1@ == all[i] && nals@[i].0 == nal_type_of(
                    all[i],
                ),
        decreases units.len() - idx,
    {
        let unit = &units[idx];
        assert(unit@ == all[idx as int]);
        let nal_type: u8 = unit[0] % 32;
        nals.push((nal_type, vstd::slice::slice_to_vec(unit.as_slice())));
        idx = idx + 1;
    }
    nals
}

/// The NAL units of a stream but its parameter sets, each behind its length.
pub open spec fn avcc_of(stream: Seq<u8>) -> Seq<u8> {
    length_prefixed(nal_bytes(other_nals(annex_b_nals(stream))))
}

/// The last SPS in a stream.
pub open spec fn sps_of(stream: Seq<u8>) -> Option<Seq<u8>> {
    last_of_type(annex_b_nals(stream), SPS)
}

/// The last PPS in a stream.
pub open spec fn pps_of(stream: Seq<u8>) -> Option<Seq<u8>> {
    last_of_type(annex_b_nals(stream), PPS)
}

/// Convert Annex B H.264 data to AVCC format.
/// Returns (avcc_bytes_without_param_sets, Option<sps>, Option<pps>).
/// SPS/PPS are extracted separately (VideoToolbox wants them in the format description, not in sample data).
pub fn annex_b_to_avcc(data: &[u8]) -> (r: (Vec<u8>, Option<Vec<u8>>, Option<Vec<u8>>))
    ensures
        r.0@ == avcc_of(data@),
        opt_view(r.1) == sps_of(data@),
        opt_view(r.2) == pps_of(data@),
{
    let nals = parse_annex_b(data);
    let ghost all = annex_b_nals(data@);
    let mut avcc: Vec<u8> = Vec::new();
    let mut sps: Option<Vec<u8>> = None;
    let mut pps: Option<Vec<u8>> = None;
    assert(nal_bytes(other_nals(all.take(0))) =~= Seq::empty());
    let mut idx: usize = 0;
    while idx < nals.len()
        invariant
            idx <= nals.len(),
            nals@.len() == all.len(),
            forall|i: int|
                0 <= i < nals@.len() ==> (#[trigger] nals@[i]).1@ == all[i] && nals@[i].0
                    == nal_type_of(all[i]),
            avcc@ == length_prefixed(nal_bytes(other_nals(all.take(idx as int)))),
            opt_view(sps) == last_of_type(all.take(idx as int), SPS),
            opt_view(pps) == last_of_type(all.take(idx as int), PPS),
        decreases nals.len() - idx,
    {
        let nal_type: u8 = nals[idx].0;
        let nal_data = &nals[idx].1;
        let ghost upto = all.take(idx as int);
        let ghost now = all.take(idx + 1);
        assert(now.drop_last() =~= upto);
        assert(now.last() == nal_data@);
        if nal_type == SPS {
            sps = Some(vstd::slice::slice_to_vec(nal_data.as_slice()));
        } else if nal_type == PPS {
            pps = Some(vstd::slice::slice_to_vec(nal_data.as_slice()));
        } else {
            put_len32(&mut avcc, nal_data.len());
            put_bytes(&mut avcc, nal_data);
            let ghost before = nal_bytes(other_nals(upto));
            assert(nal_bytes(other_nals(now)) =~= before.push(nal_data@));
            assert(before.push(nal_data@).drop_last() =~= before);
        }
        idx = idx + 1;
    }
    assert(all.take(idx as int) =~= all);
    (avcc, sps, pps)
}

/// Stream encoding type
#[derive(Debug, Clone, Copy, PartialEq, Eq, Structural)]
pub enum StreamEncoding {
    /// JPEG frames
    Jpeg,
    /// H.264 NAL units
    H264,
}

/// Transport type for camera client.
#[derive(Debug, Clone)]
pub enum Transport {
    /// Iroh P2P connection
    Iroh { server_id: String },
    /// MoQ relay connection
    Moq { path: String, relay_url: Option<String> },
}

/// Why a camera client could not be set up or could not read a frame.
#[derive(Debug, Clone, Copy, PartialEq, Eq, Structural)]
pub enum CameraClientError {
    /// Transport not specified
    TransportNotSpecified,
    /// Camera track not found
    NoCameraTrack,
    /// No frame available after retries
    NoFrame,
    /// Invalid frame data
    InvalidFrame,
    /// A frame is not an image that can be read
    NotDecodable,
    /// H.264 stream but no decoder available
    NoDecoder,
}

/// Builder for creating a camera client.
#[derive(Debug)]
pub struct CameraClientBuilder {
    pub transport: Option<Transport>,
    pub prefer_h264: bool,
}

impl CameraClientBuilder {
    /// Create a new camera client builder. H.264 is preferred.
    pub fn new() -> (r: Self)
        ensures
            r.transport is None,
            r.prefer_h264,
    {
        CameraClientBuilder { transport: None, prefer_h264: true }
    }

    /// Use iroh P2P transport.
    pub fn iroh(self, server_id: &str) -> (r: Self)
        ensures
            r.transport matches Some(Transport::Iroh { server_id: id }) && id@ == server_id@,
            r.prefer_h264 == self.prefer_h264,
    {
        let mut r = self;
        r.transport = Some(Transport::Iroh { server_id: server_id.to_owned() });
        r
    }

    /// Use MoQ relay transport.
    pub fn moq(self, path: &str) -> (r: Self)
        ensures
            r.transport matches Some(Transport::Moq { path: p, relay_url }) && p@ == path@
                && relay_url is None,
            r.prefer_h264 == self.prefer_h264,
    {
        let mut r = self;
        r.transport = Some(Transport::Moq { path: path.to_owned(), relay_url: None });
        r
    }

    /// Use MoQ relay transport with custom relay URL.
    pub fn moq_with_relay(self, path: &str, relay_url: &str) -> (r: Self)
        ensures
            r.transport matches Some(Transport::Moq { path: p, relay_url: Some(u) }) && p@ == path@
                && u@ == relay_url@,
            r.prefer_h264 == self.prefer_h264,
    {
        let mut r = self;
        r.transport = Some(
            Transport::Moq { path: path.to_owned(), relay_url: Some(relay_url.to_owned()) },
        );
        r
    }

    /// Prefer H.264 encoding (default: true).
    /// If false, will only try JPEG.
    pub fn prefer_h264(self, prefer: bool) -> (r: Self)
        ensures
            r.transport == self.transport,
            r.prefer_h264 == prefer,
    {
        let mut r = self;
        r.prefer_h264 = prefer;
        r
    }

    /// Force JPEG only (no H.264 negotiation).
    pub fn jpeg_only(self) -> (r: Self)
        ensures
            r.transport == self.transport,
            !r.prefer_h264,
    {
        let mut r = self;
        r.prefer_h264 = false;
        r
    }

    /// The transport to connect over, and whether H.264 is asked for.
    pub fn plan(self) -> (r: Result<(Transport, bool), CameraClientError>)
        ensures
            match r {
                Ok((transport, h264)) => self.transport == Some(transport) && h264
                    == self.prefer_h264,
                Err(e) => self.transport is None && e == CameraClientError::TransportNotSpecified,
            },
    {
        match self.transport {
            Some(transport) => Ok((transport, self.prefer_h264)),
            None => Err(CameraClientError::TransportNotSpecified),
        }
    }
}

impl Default for CameraClientBuilder {
    fn default() -> (r: Self)
        ensures
            r.transport is None,
            r.prefer_h264,
    {
        Self::new()
    }
}

/// Builder for creating a remote camera connection (legacy).
#[derive(Debug)]
pub struct RemoteCameraBuilder {
    pub server_id: String,
}

impl RemoteCameraBuilder {
    /// Create a new builder for connecting to a remote camera.
    pub fn new(server_id: &str) -> (r: Self)
        ensures
            r.server_id@ == server_id@,
    {
        RemoteCameraBuilder { server_id: server_id.to_owned() }
    }

    /// The client builder that connects to the remote camera server.
    pub fn client(self) -> (r: CameraClientBuilder)
        ensures
            r.transport matches Some(Transport::Iroh { server_id: id }) && id@ == self.server_id@,
            r.prefer_h264,
    {
        CameraClientBuilder::new().iroh(&self.server_id)
    }
}

/// Create a builder for connecting to a remote camera (legacy).
pub fn remote_camera(server_id: &str) -> (r: RemoteCameraBuilder)
    ensures
        r.server_id@ == server_id@,
{
    RemoteCameraBuilder::new(server_id)
}

/// How often each protocol is tried before the client gives up.
pub const CONNECT_ROUNDS: usize = 3;

/// Pause between two rounds, in milliseconds.
pub const CONNECT_PAUSE_MS: u64 = 500;

/// A protocol that a camera client can speak.
#[derive(Debug, Clone, Copy, PartialEq, Eq, Structural)]
pub enum CameraProtocol {
    /// H.264 frames
    H264,
    /// JPEG frames
    Jpeg,
    /// JPEG frames, for servers that know no other protocol
    Legacy,
}

/// The protocols that a client tries, in order of preference.
pub open spec fn protocols(prefer_h264: bool) -> Seq<CameraProtocol> {
    if prefer_h264 {
        seq![CameraProtocol::H264, CameraProtocol::Jpeg, CameraProtocol::Legacy]
    } else {
        seq![CameraProtocol::Jpeg, CameraProtocol::Legacy]
    }
}

/// What a client that connects directly does next.
#[derive(Debug, Clone, Copy, PartialEq, Eq, Structural)]
pub enum ConnectStep {
    /// Pause for this many milliseconds, then try this protocol.
    Try { pause_ms: u64, protocol: CameraProtocol, encoding: StreamEncoding },
    /// Report the last error.
    GiveUp,
}

/// The next step after `failures` failed attempts: every protocol in turn, in
/// [`CONNECT_ROUNDS`] rounds, with a pause before each round but the first.
pub open spec fn attempt(prefer_h264: bool, failures: int) -> ConnectStep {
    let tried = protocols(prefer_h264);
    if failures >= CONNECT_ROUNDS * tried.len() {
        ConnectStep::GiveUp
    } else {
        let protocol = tried[failures % tried.len() as int];
        ConnectStep::Try {
            pause_ms: if failures > 0 && failures % tried.len() as int == 0 {
                CONNECT_PAUSE_MS
            } else {
                0
            },
            protocol,
            encoding: if protocol == CameraProtocol::H264 {
                StreamEncoding::H264
            } else {
                StreamEncoding::Jpeg
            },
        }
    }
}

/// A client that prefers H.264 tries three protocols in turn, H.264 first, another one the two with
/// JPEG frames. Each is tried three times; only the first of a round is preceded by a pause, and
/// never the very first.
pub proof fn each_protocol_is_tried_three_times(prefer_h264: bool, failures: int)
    requires
        0 <= failures,
    ensures
        ({
            let n: int = if prefer_h264 {
                3
            } else {
                2
            };
            &&& attempt(prefer_h264, failures) == ConnectStep::GiveUp <==> failures >= 3 * n
            &&& failures + n < 3 * n ==> (attempt(prefer_h264, failures) matches ConnectStep::Try {
                protocol: a,
                encoding: e,
                ..
            } && attempt(prefer_h264, failures + n) matches ConnectStep::Try {
                protocol: b,
                encoding: f,
                ..
            } && a == b && e == f)
            &&& attempt(true, 0) == (ConnectStep::Try {
                pause_ms: 0,
                protocol: CameraProtocol::H264,
                encoding: StreamEncoding::H264,
            })
            &&& attempt(false, 0) == (ConnectStep::Try {
                pause_ms: 0,
                protocol: CameraProtocol::Jpeg,
                encoding: StreamEncoding::Jpeg,
            })
            &&& attempt(prefer_h264, n - 1) == (ConnectStep::Try {
                pause_ms: 0,
                protocol: CameraProtocol::Legacy,
                encoding: StreamEncoding::Jpeg,
            })
            &&& attempt(prefer_h264, failures) matches ConnectStep::Try { pause_ms, .. } ==> (pause_ms == (
            if failures == n || failures == 2 * n {
                500int
            } else {
                0
            }))
        }),
{
    let tried = protocols(prefer_h264);
    if prefer_h264 {
        assert(tried.len() == 3);
        assert((failures + 3) % 3 == failures % 3);
    } else {
        assert(tried.len() == 2);
        assert((failures + 2) % 2 == failures % 2);
    }
    assert(protocols(true).len() == 3 && protocols(false).len() == 2);
    assert(0int % 3 == 0 && 0int % 2 == 0 && 2int % 3 == 2 && 1int % 2 == 1);
}

/// The next step after `failures` failed attempts.
pub fn connect_step(prefer_h264: bool, failures: usize) -> (r: ConnectStep)
    ensures
        r == attempt(prefer_h264, failures as int),
{
    let per_round: usize = if prefer_h264 {
        3
    } else {
        2
    };
    if failures >= CONNECT_ROUNDS * per_round {
        return ConnectStep::GiveUp;
    }
    let k: usize = failures % per_round;
    let protocol = if prefer_h264 && k == 0 {
        CameraProtocol::H264
    } else if (prefer_h264 && k == 1) || (!prefer_h264 && k == 0) {
        CameraProtocol::Jpeg
    } else {
        CameraProtocol::Legacy
    };
    let encoding = match protocol {
        CameraProtocol::H264 => StreamEncoding::H264,
        _ => StreamEncoding::Jpeg,
    };
    let pause_ms: u64 = if failures > 0 && k == 0 {
        CONNECT_PAUSE_MS
    } else {
        0
    };
    ConnectStep::Try { pause_ms, protocol, encoding }
}

/// A track that a camera server publishes.
#[derive(Debug, Clone, Copy, PartialEq, Eq, Structural)]
pub enum CameraTrack {
    /// "video": H.264 in CMAF
    Video,
    /// "camera": JPEG frames
    Camera,
}

/// The track to subscribe to after `misses` tracks were not there: H.264 first if it is
/// preferred, then JPEG.
pub fn track_step(prefer_h264: bool, misses: usize) -> (r: Result<
    (CameraTrack, StreamEncoding),
    CameraClientError,
>)
    ensures
        r == (if prefer_h264 && misses == 0 {
            Ok::<_, CameraClientError>((CameraTrack::Video, StreamEncoding::H264))
        } else if misses == 0 || (prefer_h264 && misses == 1) {
            Ok((CameraTrack::Camera, StreamEncoding::Jpeg))
        } else {
            Err(CameraClientError::NoCameraTrack)
        }),
{
    if prefer_h264 && misses == 0 {
        Ok((CameraTrack::Video, StreamEncoding::H264))
    } else if misses == 0 || (prefer_h264 && misses == 1) {
        Ok((CameraTrack::Camera, StreamEncoding::Jpeg))
    } else {
        Err(CameraClientError::NoCameraTrack)
    }
}

/// How many empty reads in a row a client puts up with.
pub const MAX_EMPTY_READS: u32 = 200;

/// Pause after an empty read, in milliseconds.
pub const EMPTY_READ_PAUSE_MS: u64 = 5;

/// The pause after the `retries`-th empty read in a row, or the error that ends the waiting.
pub fn empty_read(retries: u32) -> (r: Result<u64, CameraClientError>)
    ensures
        r == (if retries > 200 {
            Err::<u64, CameraClientError>(CameraClientError::NoFrame)
        } else {
            Ok(5u64)
        }),
{
    if retries > MAX_EMPTY_READS {
        Err(CameraClientError::NoFrame)
    } else {
        Ok(EMPTY_READ_PAUSE_MS)
    }
}

/// What stands before each frame on a direct connection.
#[derive(Debug, Clone, Copy, PartialEq, Eq, Structural)]
pub struct FrameHeader {
    pub width: u32,
    pub height: u32,
    /// Microseconds since the capture started.
    pub timestamp_us: u64,
    /// Bytes of encoded frame data that follow.
    pub length: u32,
}

/// Length of an encoded [`FrameHeader`].
pub const FRAME_HEADER_LEN: usize = 20;

impl FrameHeader {
    /// width (4) + height (4) + timestamp (8) + length (4), each least significant byte first.
    pub open spec fn bytes(self) -> Seq<u8> {
        le32(self.width as int) + le32(self.height as int) + le64(self.timestamp_us as int) + le32(
            self.length as int,
        )
    }

    /// The header that a sequence of at least 20 bytes begins with.
    pub open spec fn read(s: Seq<u8>) -> FrameHeader {
        FrameHeader {
            width: le32_at(s, 0) as u32,
            height: le32_at(s, 4) as u32,
            timestamp_us: le64_at(s, 8) as u64,
            length: le32_at(s, 16) as u32,
        }
    }

    /// Encodes the header.
    pub fn encode(&self) -> (r: Vec<u8>)
        ensures
            r@ == self.bytes(),
            r@.len() == FRAME_HEADER_LEN,
    {
        let mut header: Vec<u8> = Vec::new();
        put_le32(&mut header, self.width);
        put_le32(&mut header, self.height);
        put_le64(&mut header, self.timestamp_us);
        put_le32(&mut header, self.length);
        assert(header@ =~= self.bytes());
        header
    }

    /// Decodes the header.
    pub fn decode(header: &[u8]) -> (r: Self)
        requires
            header@.len() >= FRAME_HEADER_LEN,
        ensures
            r == FrameHeader::read(header@),
    {
        FrameHeader {
            width: get_le32(header, 0),
            height: get_le32(header, 4),
            timestamp_us: get_le64(header, 8),
            length: get_le32(header, 16),
        }
    }
}

/// Decoding an encoded frame header gives the header back, whatever follows it.
pub proof fn frame_header_reads_back(h: FrameHeader, rest: Seq<u8>)
    ensures
        FrameHeader::read(h.bytes() + rest) == h,
        (h.bytes() + rest).skip(20) == rest,
{
    let s = h.bytes() + rest;
    header_parts(
        le32(h.width as int),
        le32(h.height as int),
        le64(h.timestamp_us as int),
        le32(h.length as int),
        rest,
    );
    header_fields(s, h);
}

/// The header is 20 bytes, little-endian: width (4), height (4), timestamp (8), length (4).
pub proof fn frame_header_is_laid_out(h: FrameHeader)
    ensures
        h.bytes().len() == 20,
        le32_at(h.bytes(), 0) == h.width,
        le32_at(h.bytes(), 4) == h.height,
        le64_at(h.bytes(), 8) == h.timestamp_us,
        le32_at(h.bytes(), 16) == h.length,
{
    let s = h.bytes();
    header_parts(
        le32(h.width as int),
        le32(h.height as int),
        le64(h.timestamp_us as int),
        le32(h.length as int),
        Seq::empty(),
    );
    assert(s + Seq::<u8>::empty() =~= s);
    field_reads(s, 0, h.width);
    field_reads(s, 4, h.height);
    field_reads(s, 16, h.length);
    le64_reads(s, 8, h.timestamp_us);
}

proof fn header_fields(s: Seq<u8>, h: FrameHeader)
    requires
        s.len() >= FRAME_HEADER_LEN,
        s.subrange(0, 4) == le32(h.width as int),
        s.subrange(4, 8) == le32(h.height as int),
        s.subrange(8, 16) == le64(h.timestamp_us as int),
        s.subrange(16, 20) == le32(h.length as int),
    ensures
        FrameHeader::read(s) == h,
{
    field_reads(s, 0, h.width);
    field_reads(s, 4, h.height);
    le64_reads(s, 8, h.timestamp_us);
    field_reads(s, 16, h.length);
    read_of_fields(s, h);
}

proof fn field_reads(s: Seq<u8>, at: int, x: u32)
    requires
        0 <= at,
        at + 4 <= s.len(),
        s.subrange(at, at + 4) == le32(x as int),
    ensures
        le32_at(s, at) == x,
{
    le32_read(s, at, x as int);
}

proof fn read_of_fields(s: Seq<u8>, h: FrameHeader)
    requires
        le32_at(s, 0) == h.width,
        le32_at(s, 4) == h.height,
        le64_at(s, 8) == h.timestamp_us,
        le32_at(s, 16) == h.length,
    ensures
        FrameHeader::read(s) == h,
{
}

proof fn header_parts(w: Seq<u8>, h: Seq<u8>, t: Seq<u8>, n: Seq<u8>, rest: Seq<u8>)
    requires
        w.len() == 4,
        h.len() == 4,
        t.len() == 8,
        n.len() == 4,
    ensures
        ({
            let s = w + h + t + n + rest;
            &&& s.subrange(0, 4) == w
            &&& s.subrange(4, 8) == h
            &&& s.subrange(8, 16) == t
            &&& s.subrange(16, 20) == n
            &&& s.skip(20) == rest
        }),
{
    let s = w + h + t + n + rest;
    assert(s.subrange(0, 4) =~= w);
    assert(s.subrange(4, 8) =~= h);
    assert(s.subrange(8, 16) =~= t);
    assert(s.subrange(16, 20) =~= n);
    assert(s.skip(20) =~= rest);
}

/// A JPEG frame as it travels over a relay: width, height and the low 32 bits of the
/// timestamp, then the JPEG data.
pub open spec fn relay_frame(width: u32, height: u32, timestamp_us: u64, jpeg: Seq<u8>) -> Seq<u8> {
    le32(width as int) + le32(height as int) + le32(timestamp_us as int) + jpeg
}

/// Encodes a JPEG frame for a relay.
pub fn encode_relay_frame(width: u32, height: u32, timestamp_us: u64, jpeg: &[u8]) -> (r: Vec<u8>)
    ensures
        r@ == relay_frame(width, height, timestamp_us, jpeg@),
{
    let mut buf: Vec<u8> = Vec::new();
    put_le32(&mut buf, width);
    assert(buf@ =~= le32(width as int));
    put_le32(&mut buf, height);
    proof {
        le32_truncates(timestamp_us as int, timestamp_us as int % 0x1_0000_0000);
    }
    put_le32(&mut buf, low32(timestamp_us));
    put_bytes(&mut buf, jpeg);
    buf
}

/// Decodes a JPEG frame from a relay: width, height, timestamp and JPEG data.
pub fn decode_relay_frame(data: &[u8]) -> (r: Result<(u32, u32, u64, Vec<u8>), CameraClientError>)
    ensures
        match r {
            Ok((width, height, timestamp_us, jpeg)) => {
                &&& data@.len() >= 12
                &&& width == le32_at(data@, 0)
                &&& height == le32_at(data@, 4)
                &&& timestamp_us == le32_at(data@, 8)
                &&& jpeg@ == data@.skip(12)
            },
            Err(e) => data@.len() < 12 && e == CameraClientError::InvalidFrame,
        },
{
    if data.len() < 12 {
        return Err(CameraClientError::InvalidFrame);
    }
    let jpeg = vstd::slice::slice_to_vec(vstd::slice::slice_subrange(data, 12, data.len()));
    assert(jpeg@ =~= data@.skip(12));
    Ok((get_le32(data, 0), get_le32(data, 4), get_le32(data, 8) as u64, jpeg))
}

/// Decoding a relay frame gives back its dimensions, the low 32 bits of its timestamp and its
/// JPEG data.
pub proof fn relay_frame_reads_back(width: u32, height: u32, timestamp_us: u64, jpeg: Seq<u8>)
    ensures
        ({
            let s = relay_frame(width, height, timestamp_us, jpeg);
            &&& s.len() == 12 + jpeg.len()
            &&& le32_at(s, 0) == width
            &&& le32_at(s, 4) == height
            &&& le32_at(s, 8) == timestamp_us as int % 0x1_0000_0000
            &&& s.skip(12) == jpeg
        }),
{
    let s = relay_frame(width, height, timestamp_us, jpeg);
    assert(s.subrange(0, 4) =~= le32(width as int));
    assert(s.subrange(4, 8) =~= le32(height as int));
    assert(s.subrange(8, 12) =~= le32(timestamp_us as int));
    le32_read(s, 0, width as int);
    le32_read(s, 4, height as int);
    le32_read(s, 8, timestamp_us as int);
    assert(s.skip(12) =~= jpeg);
}

/// Reads a JPEG frame that came with a timestamp. Its size is that of the image.
pub fn jpeg_frame(jpeg: &[u8], timestamp_us: u64) -> (r: Result<Frame, CameraClientError>)
    ensures
        match r {
            Ok(frame) => picture_in(jpeg@) == Some((frame.width, frame.height, frame.data@))
                && frame.timestamp_us == timestamp_us,
            Err(e) => picture_in(jpeg@) is None && e == CameraClientError::NotDecodable,
        },
{
    match Frame::from_jpeg(jpeg) {
        Ok(frame) => {
            let mut stamped = frame;
            stamped.timestamp_us = timestamp_us;
            Ok(stamped)
        },
        Err(_) => Err(CameraClientError::NotDecodable),
    }
}

/// What is done with a frame from a direct connection.
#[derive(Debug)]
pub enum DirectFrame {
    /// Return this frame.
    Ready(Frame),
    /// Hand the data to the H.264 decoder, with the size and the time that the header names.
    Decode { width: u32, height: u32, timestamp_us: u64 },
}

/// Takes in the data that followed a header on a direct connection; `has_decoder` says whether
/// there is an H.264 decoder.
pub fn direct_frame(
    header: &FrameHeader,
    data: &[u8],
    encoding: StreamEncoding,
    has_decoder: bool,
) -> (r: Result<DirectFrame, CameraClientError>)
    ensures
        match encoding {
            StreamEncoding::Jpeg => match picture_in(data@) {
                Some((width, height, rgb)) => r matches Ok(DirectFrame::Ready(frame)) && frame.width
                    == width && frame.height == height && frame.data@ == rgb && frame.timestamp_us
                    == header.timestamp_us,
                None => r == Err::<DirectFrame, CameraClientError>(CameraClientError::NotDecodable),
            },
            StreamEncoding::H264 => if has_decoder {
                r == Ok::<DirectFrame, CameraClientError>(
                    DirectFrame::Decode {
                        width: header.width,
                        height: header.height,
                        timestamp_us: header.timestamp_us,
                    },
                )
            } else {
                r == Err::<DirectFrame, CameraClientError>(CameraClientError::NoDecoder)
            },
        },
{
    match encoding {
        StreamEncoding::Jpeg => match jpeg_frame(data, header.timestamp_us) {
            Ok(frame) => Ok(DirectFrame::Ready(frame)),
            Err(e) => Err(e),
        },
        StreamEncoding::H264 => if has_decoder {
            Ok(
                DirectFrame::Decode {
                    width: header.width,
                    height: header.height,
                    timestamp_us: header.timestamp_us,
                },
            )
        } else {
            Err(CameraClientError::NoDecoder)
        },
    }
}

/// Reads a JPEG frame that came over a relay.
pub fn relayed_jpeg(data: &[u8]) -> (r: Result<Frame, CameraClientError>)
    ensures
        if data@.len() < 12 {
            r == Err::<Frame, CameraClientError>(CameraClientError::InvalidFrame)
        } else {
            match picture_in(data@.skip(12)) {
                Some((width, height, rgb)) => r matches Ok(frame) && frame.width == width && frame.height
                    == height && frame.data@ == rgb && frame.timestamp_us == le32_at(data@, 8),
                None => r == Err::<Frame, CameraClientError>(CameraClientError::NotDecodable),
            }
        },
{
    match decode_relay_frame(data) {
        Ok((_, _, timestamp_us, jpeg)) => jpeg_frame(&jpeg, timestamp_us),
        Err(e) => Err(e),
    }
}

/// What a client that reads CMAF from a relay remembers.
#[derive(Debug, Clone, Copy, PartialEq, Eq, Structural)]
pub struct CmafClient {
    /// Whether an initialization segment has arrived and a decoder was made for it.
    pub initialized: bool,
    pub width: u32,
    pub height: u32,
}

/// What to do with the data that arrived.
#[derive(Debug)]
pub enum CmafStep {
    /// Nothing to decode: read on.
    Wait,
    /// Make a decoder, hand it `priming`, then decode `frame` if there is one.
    Start { priming: Vec<u8>, frame: Option<Vec<u8>> },
    /// Decode `frame`.
    Decode { frame: Vec<u8> },
}

/// What a [`CmafStep`] holds.
#[verifier::ext_equal]
pub enum Step {
    Wait,
    Start { priming: Seq<u8>, frame: Option<Seq<u8>> },
    Decode { frame: Seq<u8> },
}

impl View for CmafStep {
    type V = Step;

    open spec fn view(&self) -> Step {
        match *self {
            CmafStep::Wait => Step::Wait,
            CmafStep::Start { priming, frame } => Step::Start {
                priming: priming@,
                frame: opt_view(frame),
            },
            CmafStep::Decode { frame } => Step::Decode { frame: frame@ },
        }
    }
}

/// The parameter sets as a stream.
pub open spec fn param_stream(p: StreamParams) -> Seq<u8> {
    with_start_code(p.sps) + with_start_code(p.pps)
}

impl CmafClient {
    /// A client that has read nothing yet.
    pub fn new() -> (r: Self)
        ensures
            r == (CmafClient { initialized: false, width: 0, height: 0 }),
    {
        CmafClient { initialized: false, width: 0, height: 0 }
    }

    /// Whether the boxes that have to be looked at are long enough for their headers.
    pub open spec fn accepts(self, data: Seq<u8>) -> bool {
        if self.initialized {
            &&& media_nals(data) is Some
            &&& media_nals(data)->0.len() == 0 ==> scan_init(data) !is Malformed
        } else {
            &&& scan_init(data) !is Malformed
            &&& scan_init(data) is Found ==> media_nals(data) is Some
        }
    }

    /// The client after it has read `data`. Where the segment states no dimensions, 1280 x 720
    /// is taken.
    pub open spec fn after(self, data: Seq<u8>) -> CmafClient {
        if self.initialized {
            self
        } else {
            match scan_init(data) {
                Scan::Found(p) => CmafClient {
                    initialized: true,
                    width: if p.width > 0 {
                        p.width
                    } else {
                        1280
                    },
                    height: if p.height > 0 {
                        p.height
                    } else {
                        720
                    },
                },
                _ => self,
            }
        }
    }

    /// What the client does with `data`.
    pub open spec fn step(self, data: Seq<u8>) -> Step {
        let nals = media_nals(data)->0;
        if self.initialized {
            if nals.len() == 0 {
                Step::Wait
            } else {
                Step::Decode { frame: annex_b_stream(nals) }
            }
        } else {
            match scan_init(data) {
                Scan::Found(p) => Step::Start {
                    priming: param_stream(p),
                    frame: if nals.len() == 0 {
                        None
                    } else {
                        Some(param_stream(p) + annex_b_stream(nals))
                    },
                },
                _ => Step::Wait,
            }
        }
    }

    /// Whether `data` can be handed to [`CmafClient::on_data`].
    pub fn readable(&self, data: &[u8]) -> (r: bool)
        ensures
            r == self.accepts(data@),
    {
        if self.initialized {
            if !media_segment_readable(data) {
                return false;
            }
            match parse_cmaf_media_segment(data) {
                Ok(nals) => !nals.is_empty() || init_segment_readable(data),
                Err(_) => false,
            }
        } else {
            if !init_segment_readable(data) {
                return false;
            }
            match parse_cmaf_init_segment(data) {
                Ok(_) => media_segment_readable(data),
                Err(_) => true,
            }
        }
    }

    /// Takes in what was read from the track.
    pub fn on_data(&mut self, data: &[u8]) -> (r: CmafStep)
        requires
            old(self).accepts(data@),
        ensures
            *final(self) == old(self).after(data@),
            r@ == old(self).step(data@),
    {
        if !self.initialized {
            let (sps, pps, width, height) = match parse_cmaf_init_segment(data) {
                Ok(found) => found,
                Err(_) => return CmafStep::Wait,
            };
            let mut priming: Vec<u8> = Vec::new();
            put_nal(&mut priming, &sps);
            assert(priming@ =~= with_start_code(sps@));
            put_nal(&mut priming, &pps);
            self.initialized = true;
            self.width = if width > 0 {
                width
            } else {
                1280
            };
            self.height = if height > 0 {
                height
            } else {
                720
            };
            let nals = match parse_cmaf_media_segment(data) {
                Ok(nals) => nals,
                Err(_) => Vec::new(),
            };
            if nals.is_empty() {
                return CmafStep::Start { priming, frame: None };
            }
            let stream = join_nals(&nals);
            let mut full = vstd::slice::slice_to_vec(priming.as_slice());
            put_bytes(&mut full, &stream);
            return CmafStep::Start { priming, frame: Some(full) };
        }
        let nals = match parse_cmaf_media_segment(data) {
            Ok(nals) => nals,
            Err(_) => Vec::new(),
        };
        if nals.is_empty() {
            return CmafStep::Wait;
        }
        CmafStep::Decode { frame: join_nals(&nals) }
    }
}

impl Default for CmafClient {
    fn default() -> (r: Self)
        ensures
            r == (CmafClient { initialized: false, width: 0, height: 0 }),
    {
        Self::new()
    }
}

/// What a client reads from a relay.
#[derive(Debug)]
pub enum RelayRead {
    /// Data.
    Data(Vec<u8>),
    /// Nothing yet.
    Nothing,
}

/// What follows.
#[derive(Debug)]
pub enum RelayStep {
    /// Read on after this many milliseconds.
    Again { pause_ms: u64 },
    /// Return this frame.
    Ready(Frame),
    /// Make a decoder of this size and hand it `priming`. Then return what it decodes of
    /// `stream`, or read on where there is none.
    Start { width: u32, height: u32, priming: Vec<u8>, stream: Option<Vec<u8>> },
    /// Return what the decoder decodes of this stream.
    Decode { width: u32, height: u32, stream: Vec<u8> },
    /// Report the error.
    Fail(CameraClientError),
}

/// A client that reads frames from a relay.
#[derive(Debug, Clone, Copy, PartialEq, Eq, Structural)]
pub struct RelayReader {
    pub encoding: StreamEncoding,
    /// Reads in a row that brought nothing.
    pub retries: u32,
    pub cmaf: CmafClient,
}

impl RelayReader {
    /// A client that has read nothing yet.
    pub fn new(encoding: StreamEncoding) -> (r: Self)
        ensures
            r == (RelayReader {
                encoding,
                retries: 0,
                cmaf: CmafClient { initialized: false, width: 0, height: 0 },
            }),
    {
        RelayReader { encoding, retries: 0, cmaf: CmafClient::new() }
    }

    /// Whether a read can be taken in.
    pub open spec fn accepts(self, read: RelayRead) -> bool {
        match read {
            RelayRead::Data(data) => self.encoding == StreamEncoding::H264 ==> self.cmaf.accepts(
                data@,
            ),
            RelayRead::Nothing => true,
        }
    }

    /// Whether `data` can be handed to [`RelayReader::step`].
    pub fn readable(&self, data: &[u8]) -> (r: bool)
        ensures
            r == (self.encoding == StreamEncoding::H264 ==> self.cmaf.accepts(data@)),
    {
        match self.encoding {
            StreamEncoding::H264 => self.cmaf.readable(data),
            StreamEncoding::Jpeg => true,
        }
    }

    /// Takes in that no decoder could be made where [`RelayStep::Start`] asked for one: the client
    /// waits for the next initialization segment.
    pub fn decoder_failed(&mut self)
        ensures
            final(self).cmaf == (CmafClient { initialized: false, width: 0, height: 0 }),
            *final(self) == (RelayReader { cmaf: final(self).cmaf, ..*old(self) }),
    {
        self.cmaf = CmafClient::new();
    }

    /// Whether a step is what follows data, for a client in a state.
    pub open spec fn answers(self, data: Seq<u8>, step: RelayStep) -> bool {
        match self.encoding {
            StreamEncoding::Jpeg => if data.len() < 12 {
                step == RelayStep::Fail(CameraClientError::InvalidFrame)
            } else {
                match picture_in(data.skip(12)) {
                    Some((width, height, rgb)) => step matches RelayStep::Ready(frame) && frame.width
                        == width && frame.height == height && frame.data@ == rgb
                        && frame.timestamp_us == le32_at(data, 8),
                    None => step == RelayStep::Fail(CameraClientError::NotDecodable),
                }
            },
            StreamEncoding::H264 => {
                let next = self.cmaf.after(data);
                match self.cmaf.step(data) {
                    Step::Wait => step == (RelayStep::Again { pause_ms: 0 }),
                    Step::Start { priming: p, frame } => step matches RelayStep::Start {
                        width,
                        height,
                        priming,
                        stream,
                    } && width == next.width && height == next.height && priming@ == p && opt_view(
                        stream,
                    ) == frame,
                    Step::Decode { frame } => step matches RelayStep::Decode {
                        width,
                        height,
                        stream,
                    } && width == next.width && height == next.height && stream@ == frame,
                }
            },
        }
    }

    /// Takes in a read and says what follows. Reads that bring nothing are put up with 200 times
    /// in a row.
    pub fn step(&mut self, read: RelayRead) -> (r: RelayStep)
        requires
            old(self).accepts(read),
            old(self).retries <= 200,
        ensures
            match read {
                RelayRead::Data(data) => {
                    &&& old(self).answers(data@, r)
                    &&& *final(self) == (RelayReader {
                        retries: 0,
                        cmaf: if old(self).encoding == StreamEncoding::H264 {
                            old(self).cmaf.after(data@)
                        } else {
                            old(self).cmaf
                        },
                        ..*old(self)
                    })
                },
                RelayRead::Nothing => if old(self).retries < 200 {
                    &&& r == (RelayStep::Again { pause_ms: 5 })
                    &&& *final(self) == (RelayReader {
                        retries: (old(self).retries + 1) as u32,
                        ..*old(self)
                    })
                } else {
                    &&& r == RelayStep::Fail(CameraClientError::NoFrame)
                    &&& *final(self) == (RelayReader { retries: 0, ..*old(self) })
                },
            },
    {
        match read {
            RelayRead::Data(data) => {
                self.retries = 0;
                match self.encoding {
                    StreamEncoding::Jpeg => match relayed_jpeg(&data) {
                        Ok(frame) => RelayStep::Ready(frame),
                        Err(e) => RelayStep::Fail(e),
                    },
                    StreamEncoding::H264 => {
                        let step = self.cmaf.on_data(&data);
                        let width: u32 = self.cmaf.width;
                        let height: u32 = self.cmaf.height;
                        match step {
                            CmafStep::Wait => RelayStep::Again { pause_ms: 0 },
                            CmafStep::Start { priming, frame } => RelayStep::Start {
                                width,
                                height,
                                priming,
                                stream: frame,
                            },
                            CmafStep::Decode { frame } => RelayStep::Decode {
                                width,
                                height,
                                stream: frame,
                            },
                        }
                    },
                }
            },
            RelayRead::Nothing => match empty_read(self.retries + 1) {
                Ok(pause_ms) => {
                    self.retries = self.retries + 1;
                    RelayStep::Again { pause_ms }
                },
                Err(e) => {
                    self.retries = 0;
                    RelayStep::Fail(e)
                },
            },
        }
    }
}

/// A client that has read nothing yet starts from an initialization segment, and decodes of
/// a media segment that comes with it (for those who join late) the slices that were added to
/// the muxer, in order.
pub proof fn client_starts_from_an_init_segment(
    client: CmafClient,
    t: Track,
    sequence_number: u32,
    track_id: u32,
    base_dts: i64,
    samples: Seq<Sample>,
    frames: Seq<Seq<Seq<u8>>>,
)
    requires
        !client.initialized,
        0 < t.sps.len() < 0x1_0000,
        0 < t.pps.len() < 0x1_0000,
        samples_of(samples, frames),
        88 + 16 * samples.len() < 0x1_0000_0000,
        8 + payload(samples).len() < 0x1_0000_0000,
        joined(frames).len() > 0,
    ensures
        ({
            let alone = init_segment(t);
            let combined = init_segment(t) + media_segment(
                sequence_number,
                track_id,
                base_dts,
                samples,
            );
            let priming = with_start_code(t.sps) + with_start_code(t.pps);
            &&& client.accepts(alone)
            &&& client.after(alone).initialized
            &&& client.step(alone) == (Step::Start { priming, frame: None })
            &&& client.accepts(combined)
            &&& client.after(combined) == client.after(alone)
            &&& client.step(combined) == (Step::Start {
                priming,
                frame: Some(priming + annex_b_stream(joined(frames))),
            })
        }),
{
    let media = media_segment(sequence_number, track_id, base_dts, samples);
    init_segment_reads_back(t, media);
    init_segment_reads_back(t, Seq::empty());
    assert(init_segment(t) + Seq::<u8>::empty() =~= init_segment(t));
    assert(media_nals(Seq::empty()) == Some(Seq::<Seq<u8>>::empty()));
    media_segment_reads_back(sequence_number, track_id, base_dts, samples, frames);
}

/// A client takes the size of the pictures from the initialization segment, and 1280 by 720 where
/// that states none.
pub proof fn client_takes_the_size(client: CmafClient, t: Track, rest: Seq<u8>)
    requires
        !client.initialized,
        0 < t.sps.len() < 0x1_0000,
        0 < t.pps.len() < 0x1_0000,
    ensures
        0 < t.width < 0x1_0000 ==> client.after(init_segment(t) + rest).width == t.width,
        0 < t.height < 0x1_0000 ==> client.after(init_segment(t) + rest).height == t.height,
        t.width == 0 ==> client.after(init_segment(t) + rest).width == 1280,
        t.height == 0 ==> client.after(init_segment(t) + rest).height == 720,
{
    init_segment_reads_back(t, rest);
    size_that_was_found(client, init_segment(t) + rest, t);
}

proof fn size_that_was_found(client: CmafClient, s: Seq<u8>, t: Track)
    requires
        !client.initialized,
        scan_init(s) == Scan::Found(read_back(t)),
    ensures
        0 < t.width < 0x1_0000 ==> client.after(s).width == t.width,
        0 < t.height < 0x1_0000 ==> client.after(s).height == t.height,
        t.width == 0 ==> client.after(s).width == 1280,
        t.height == 0 ==> client.after(s).height == 720,
{
    assert(t.width < 0x1_0000 ==> (t.width % 0x1_0000) as u32 == t.width);
    assert(t.height < 0x1_0000 ==> (t.height % 0x1_0000) as u32 == t.height);
}

/// A client that has read the initialization segment decodes of each later media segment the
/// very slices that were added to the muxer, in order.
pub proof fn client_decodes_what_was_muxed(
    client: CmafClient,
    sequence_number: u32,
    track_id: u32,
    base_dts: i64,
    samples: Seq<Sample>,
    frames: Seq<Seq<Seq<u8>>>,
)
    requires
        client.initialized,
        samples_of(samples, frames),
        88 + 16 * samples.len() < 0x1_0000_0000,
        8 + payload(samples).len() < 0x1_0000_0000,
        joined(frames).len() > 0,
    ensures
        ({
            let data = media_segment(sequence_number, track_id, base_dts, samples);
            &&& client.accepts(data)
            &&& client.after(data) == client
            &&& client.step(data) == (Step::Decode { frame: annex_b_stream(joined(frames)) })
        }),
{
    media_segment_reads_back(sequence_number, track_id, base_dts, samples, frames);
}

proof fn filtered_units_are_units(nals: Seq<Seq<u8>>, keep: spec_fn(Seq<u8>) -> bool)
    ensures
        forall|i: int|
            0 <= i < nals.filter(keep).len() ==> nals.contains(#[trigger] nals.filter(keep)[i]),
    decreases nals.len(),
{
    reveal(Seq::filter);
    if nals.len() > 0 {
        let front = nals.drop_last();
        filtered_units_are_units(front, keep);
        assert forall|i: int| 0 <= i < nals.filter(keep).len() implies nals.contains(
            #[trigger] nals.filter(keep)[i],
        ) by {
            if i < front.filter(keep).len() {
                let unit = front.filter(keep)[i];
                assert(front.contains(unit));
                let k = choose|k: int| 0 <= k < front.len() && front[k] == unit;
                assert(nals[k] == unit);
            } else {
                assert(nals[nals.len() - 1] == nals.filter(keep)[i]);
            }
        }
    }
}

/// Of a stream the decoder is given, each behind its length and in order, all NAL units but the
/// parameter sets, and of these the last of each kind.
pub proof fn decoder_is_given_the_units(nals: Seq<Seq<u8>>)
    requires
        forall|i: int|
            0 <= i < nals.len() ==> streamable(#[trigger] nals[i]) && nals[i].len() < 0x1_0000_0000,
    ensures
        ({
            let stream = annex_b_stream(nals);
            &&& split_prefixed(avcc_of(stream)) == nals.filter(
                |n: Seq<u8>| n[0] & 0x1F != 7 && n[0] & 0x1F != 8,
            )
            &&& forall|i: int|
                0 <= i < nals.len() && (#[trigger] nals[i])[0] & 0x1F == 7 && (forall|j: int|
                    i < j < nals.len() ==> (#[trigger] nals[j])[0] & 0x1F != 7) ==> sps_of(stream)
                    == Some(nals[i])
            &&& forall|i: int|
                0 <= i < nals.len() && (#[trigger] nals[i])[0] & 0x1F == 8 && (forall|j: int|
                    i < j < nals.len() ==> (#[trigger] nals[j])[0] & 0x1F != 8) ==> pps_of(stream)
                    == Some(nals[i])
        }),
{
    let stream = annex_b_stream(nals);
    let keep = |n: Seq<u8>| nal_type_of(n) != 7 && nal_type_of(n) != 8;
    let low_bits = |n: Seq<u8>| n[0] & 0x1F != 7 && n[0] & 0x1F != 8;
    assert forall|n: Seq<u8>| #[trigger] nal_type_of(n) == n[0] & 0x1F by {
        type_is_in_the_low_bits(n);
    }
    assert(keep =~= low_bits);
    stream_splits_into_its_nals(nals);
    all_but_parameter_sets_are_kept(nals);
    filtered_units_are_units(nals, keep);
    let kept = nal_bytes(other_nals(nals));
    assert(kept =~= other_nals(nals).map_values(|n: Nal| n.data));
    assert forall|i: int| 0 <= i < kept.len() implies (#[trigger] kept[i]).len() < 0x1_0000_0000 by {
        assert(nals.contains(nals.filter(keep)[i]));
    }
    prefixed_nals_split_back(kept);
    assert forall|i: int, t: u8|
        0 <= i < nals.len() && nal_type_of(nals[i]) == t && (forall|j: int|
            i < j < nals.len() ==> (#[trigger] nals[j])[0] & 0x1F != t) implies #[trigger] last_of_type(
        nals,
        t,
    ) == Some(#[trigger] nals[i]) by {
        last_of_type_is_the_last(nals, t, i);
    }
}

} // verus!
