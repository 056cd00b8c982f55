//! Audio server: between a local microphone and speaker and a remote client.

use crate::audio::{
    config_at, header_reads_back, AudioConfig, AudioError, AudioFrame, Chunk, SampleFormat,
    WIRE_HEADER_SIZE,
};
use crate::endian::{le16_at, le32_at, le64_at, put_bytes};
use vstd::prelude::*;

verus! {

/// ALPN protocol for audio streaming.
pub const AUDIO_ALPN: &'static str = "xoq/audio-pcm/0";

/// Transport type for audio server.
#[derive(Debug, Clone)]
pub enum Transport {
    /// Iroh P2P (direct connection)
    Iroh { identity_path: Option<String> },
    /// MoQ relay
    Moq { path: String, relay_url: Option<String> },
}

impl Default for Transport {
    fn default() -> (r: Self)
        ensures
            r matches Transport::Iroh { identity_path } && identity_path is None,
    {
        Transport::Iroh { identity_path: None }
    }
}

impl Transport {
    /// What a server is known by: its endpoint id on iroh, its path on MoQ.
    pub fn id(&self, endpoint_id: &str) -> (r: String)
        ensures
            r@ == (match *self {
                Transport::Iroh { .. } => endpoint_id@,
                Transport::Moq { path, .. } => path@,
            }),
    {
        match self {
            Transport::Iroh { .. } => endpoint_id.to_owned(),
            Transport::Moq { path, .. } => path.as_str().to_owned(),
        }
    }
}

/// Builder for creating an audio server.
#[derive(Debug)]
pub struct AudioServerBuilder {
    pub input_device: Option<usize>,
    pub output_device: Option<usize>,
    pub sample_rate: u32,
    pub channels: u16,
    pub sample_format: SampleFormat,
    pub chunk_duration_ms: u32,
    pub transport: Transport,
    pub use_vpio: bool,
}

/// The devices that a server opens.
#[derive(Debug, Clone, Copy, PartialEq, Eq, Structural)]
pub enum BackendPlan {
    /// One unit for both directions, with echo cancellation.
    VoiceProcessing,
    /// A microphone and a speaker. `None` stands for the default device; a default speaker that
    /// cannot be opened is done without.
    Separate { input: Option<usize>, output: Option<usize>, output_required: bool },
}

impl AudioServerBuilder {
    /// Create a new audio server builder with defaults.
    pub fn new() -> (r: Self)
        ensures
            r.input_device is None,
            r.output_device is None,
            r.sample_rate == 48000,
            r.channels == 1,
            r.sample_format == SampleFormat::I16,
            r.chunk_duration_ms == 20,
            r.transport matches Transport::Iroh { identity_path } && identity_path is None,
            r.use_vpio,
    {
        AudioServerBuilder {
            input_device: None,
            output_device: None,
            sample_rate: 48000,
            channels: 1,
            sample_format: SampleFormat::I16,
            chunk_duration_ms: 20,
            transport: Transport::default(),
            use_vpio: true,
        }
    }

    /// Set input (microphone) device index.
    pub fn input_device(self, index: usize) -> (r: Self)
        ensures
            r == (AudioServerBuilder { input_device: Some(index), ..self }),
    {
        let mut r = self;
        r.input_device = Some(index);
        r
    }

    /// Set output (speaker) device index.
    pub fn output_device(self, index: usize) -> (r: Self)
        ensures
            r == (AudioServerBuilder { output_device: Some(index), ..self }),
    {
        let mut r = self;
        r.output_device = Some(index);
        r
    }

    /// Set sample rate (default: 48000).
    pub fn sample_rate(self, rate: u32) -> (r: Self)
        ensures
            r == (AudioServerBuilder { sample_rate: rate, ..self }),
    {
        let mut r = self;
        r.sample_rate = rate;
        r
    }

    /// Set number of channels (default: 1).
    pub fn channels(self, channels: u16) -> (r: Self)
        ensures
            r == (AudioServerBuilder { channels, ..self }),
    {
        let mut r = self;
        r.channels = channels;
        r
    }

    /// Set sample format (default: I16).
    pub fn sample_format(self, format: SampleFormat) -> (r: Self)
        ensures
            r == (AudioServerBuilder { sample_format: format, ..self }),
    {
        let mut r = self;
        r.sample_format = format;
        r
    }

    /// Set chunk duration in milliseconds (default: 20ms).
    pub fn chunk_duration_ms(self, ms: u32) -> (r: Self)
        ensures
            r == (AudioServerBuilder { chunk_duration_ms: ms, ..self }),
    {
        let mut r = self;
        r.chunk_duration_ms = ms;
        r
    }

    /// Use iroh P2P transport (default).
    pub fn iroh(self) -> (r: Self)
        ensures
            r == (AudioServerBuilder { transport: r.transport, ..self }),
            r.transport matches Transport::Iroh { identity_path } && identity_path is None,
    {
        let mut r = self;
        r.transport = Transport::Iroh { identity_path: None };
        r
    }

    /// Use iroh P2P transport with persistent identity.
    pub fn iroh_with_identity(self, path: &str) -> (r: Self)
        ensures
            r == (AudioServerBuilder { transport: r.transport, ..self }),
            r.transport matches Transport::Iroh { identity_path: Some(p) } && p@ == path@,
    {
        let mut r = self;
        r.transport = Transport::Iroh { identity_path: Some(path.to_owned()) };
        r
    }

    /// Use MoQ relay transport.
    pub fn moq(self, path: &str) -> (r: Self)
        ensures
            r == (AudioServerBuilder { transport: r.transport, ..self }),
            r.transport matches Transport::Moq { path: p, relay_url } && p@ == path@ && relay_url is None,
    {
        let mut r = self;
        r.transport = Transport::Moq { path: path.to_owned(), relay_url: None };
        r
    }

    /// Use MoQ relay transport with custom relay URL.
    pub fn moq_with_relay(self, path: &str, relay_url: &str) -> (r: Self)
        ensures
            r == (AudioServerBuilder { transport: r.transport, ..self }),
            r.transport matches Transport::Moq { path: p, relay_url: Some(u) } && p@ == path@ && u@
                == relay_url@,
    {
        let mut r = self;
        r.transport = Transport::Moq {
            path: path.to_owned(),
            relay_url: Some(relay_url.to_owned()),
        };
        r
    }

    /// Use Voice Processing IO on macOS (AEC, noise suppression, AGC).
    pub fn use_vpio(self, enable: bool) -> (r: Self)
        ensures
            r == (AudioServerBuilder { use_vpio: enable, ..self }),
    {
        let mut r = self;
        r.use_vpio = enable;
        r
    }

    /// The audio configuration of the server.
    pub fn config(&self) -> (r: AudioConfig)
        ensures
            r == (AudioConfig {
                sample_rate: self.sample_rate,
                channels: self.channels,
                sample_format: self.sample_format,
            }),
    {
        AudioConfig {
            sample_rate: self.sample_rate,
            channels: self.channels,
            sample_format: self.sample_format,
        }
    }

    /// The devices to open; `vpio_available` says whether the platform has voice processing.
    pub fn backend(&self, vpio_available: bool) -> (r: BackendPlan)
        ensures
            r == (if vpio_available && self.use_vpio {
                BackendPlan::VoiceProcessing
            } else {
                BackendPlan::Separate {
                    input: self.input_device,
                    output: self.output_device,
                    output_required: self.output_device is Some,
                }
            }),
    {
        if vpio_available && self.use_vpio {
            BackendPlan::VoiceProcessing
        } else {
            BackendPlan::Separate {
                input: self.input_device,
                output: self.output_device,
                output_required: self.output_device.is_some(),
            }
        }
    }
}

impl Default for AudioServerBuilder {
    fn default() -> (r: Self)
        ensures
            r.input_device is None,
            r.output_device is None,
            r.sample_rate == 48000,
            r.channels == 1,
            r.sample_format == SampleFormat::I16,
            r.chunk_duration_ms == 20,
            r.transport matches Transport::Iroh { identity_path } && identity_path is None,
            r.use_vpio,
    {
        Self::new()
    }
}

/// What comes in from a client for the speaker.
#[derive(Debug)]
pub enum SpeakerEvent {
    /// The header that was asked for.
    Header([u8; WIRE_HEADER_SIZE]),
    /// The sound that was asked for.
    Data(Vec<u8>),
    /// The stream ended or failed before all of it was there.
    ReadFailed,
    /// The connection was cancelled.
    Cancelled,
}

/// What the connection does next.
#[derive(Debug)]
pub enum SpeakerStep {
    /// Read a header.
    ReadHeader,
    /// Read this many bytes of sound.
    ReadData(u32),
    /// Play the frame, then read a header.
    Play(AudioFrame),
    /// Stop the microphone and end the connection in order.
    Finish,
    /// End the connection: the header makes no sense.
    BadHeader(AudioError),
    /// End the connection: the sound that a header announced did not come.
    DataMissing,
}

/// What a step amounts to.
pub enum SpeakerAction {
    ReadHeader,
    ReadData(u32),
    Play(Chunk),
    Finish,
    BadHeader(AudioError),
    DataMissing,
}

impl View for SpeakerStep {
    type V = SpeakerAction;

    open spec fn view(&self) -> SpeakerAction {
        match *self {
            SpeakerStep::ReadHeader => SpeakerAction::ReadHeader,
            SpeakerStep::ReadData(n) => SpeakerAction::ReadData(n),
            SpeakerStep::Play(frame) => SpeakerAction::Play(frame@),
            SpeakerStep::Finish => SpeakerAction::Finish,
            SpeakerStep::BadHeader(e) => SpeakerAction::BadHeader(e),
            SpeakerStep::DataMissing => SpeakerAction::DataMissing,
        }
    }
}

/// The network side of a speaker: what it waits for.
#[derive(Debug, Clone, Copy, PartialEq, Eq, Structural)]
pub enum SpeakerLink {
    /// A header.
    Header,
    /// The sound that follows this header.
    Data { config: AudioConfig, frame_count: u32, timestamp_us: u64, data_length: u32 },
}

impl SpeakerLink {
    /// The state and the action after an event. Sound where a header was asked for, or a header
    /// where sound was, is passed over.
    pub open spec fn next(self, event: SpeakerEvent) -> (SpeakerLink, SpeakerAction) {
        match (self, event) {
            (_, SpeakerEvent::Cancelled) => (self, SpeakerAction::Finish),
            (SpeakerLink::Header, SpeakerEvent::Header(h)) => match config_at(h@) {
                Some(config) => (
                    SpeakerLink::Data {
                        config,
                        frame_count: le32_at(h@, 8) as u32,
                        timestamp_us: le64_at(h@, 12) as u64,
                        data_length: le32_at(h@, 20) as u32,
                    },
                    SpeakerAction::ReadData(le32_at(h@, 20) as u32),
                ),
                None => (
                    self,
                    SpeakerAction::BadHeader(
                        AudioError::UnknownFormat { code: le16_at(h@, 6) as u16 },
                    ),
                ),
            },
            (SpeakerLink::Header, SpeakerEvent::ReadFailed) => (self, SpeakerAction::Finish),
            (SpeakerLink::Header, SpeakerEvent::Data(_)) => (self, SpeakerAction::ReadHeader),
            (
                SpeakerLink::Data { config, frame_count, timestamp_us, .. },
                SpeakerEvent::Data(data),
            ) => (
                SpeakerLink::Header,
                SpeakerAction::Play(Chunk { data: data@, frame_count, timestamp_us, config }),
            ),
            (SpeakerLink::Data { .. }, SpeakerEvent::ReadFailed) => (
                self,
                SpeakerAction::DataMissing,
            ),
            (SpeakerLink::Data { data_length, .. }, SpeakerEvent::Header(_)) => (
                self,
                SpeakerAction::ReadData(data_length),
            ),
        }
    }

    /// Takes an event and says what to do next.
    pub fn step(&mut self, event: SpeakerEvent) -> (r: SpeakerStep)
        ensures
            (*final(self), r@) == old(self).next(event),
    {
        let state = *self;
        match event {
            SpeakerEvent::Cancelled => SpeakerStep::Finish,
            SpeakerEvent::Header(h) => match state {
                SpeakerLink::Header => match AudioFrame::decode_header(&h) {
                    Ok((config, frame_count, timestamp_us, data_length)) => {
                        *self = SpeakerLink::Data {
                            config,
                            frame_count,
                            timestamp_us,
                            data_length,
                        };
                        SpeakerStep::ReadData(data_length)
                    },
                    Err(e) => SpeakerStep::BadHeader(e),
                },
                SpeakerLink::Data { data_length, .. } => SpeakerStep::ReadData(data_length),
            },
            SpeakerEvent::Data(data) => match state {
                SpeakerLink::Header => SpeakerStep::ReadHeader,
                SpeakerLink::Data { config, frame_count, timestamp_us, .. } => {
                    *self = SpeakerLink::Header;
                    SpeakerStep::Play(AudioFrame { data, frame_count, timestamp_us, config })
                },
            },
            SpeakerEvent::ReadFailed => match state {
                SpeakerLink::Header => SpeakerStep::Finish,
                SpeakerLink::Data { .. } => SpeakerStep::DataMissing,
            },
        }
    }
}

/// A chunk that is sent as its header and then its data is played as it was, and the link waits
/// for the next header.
pub proof fn sent_chunk_is_played(c: Chunk, header: [u8; WIRE_HEADER_SIZE], data: Vec<u8>)
    requires
        c.data.len() < 0x1_0000_0000,
        header@ == c.header(),
        data@ == c.data,
    ensures
        ({
            let first = SpeakerLink::Header.next(SpeakerEvent::Header(header));
            let second = first.0.next(SpeakerEvent::Data(data));
            &&& first.1 == SpeakerAction::ReadData(c.data.len() as u32)
            &&& second == (SpeakerLink::Header, SpeakerAction::Play(c))
        }),
{
    header_reads_back(c);
    described_chunk_is_played(c, header, data);
}

proof fn described_chunk_is_played(c: Chunk, header: [u8; WIRE_HEADER_SIZE], data: Vec<u8>)
    requires
        c.data.len() < 0x1_0000_0000,
        data@ == c.data,
        config_at(header@) == Some(c.config),
        le32_at(header@, 8) == c.frame_count,
        le64_at(header@, 12) == c.timestamp_us,
        le32_at(header@, 20) == c.data.len() as int % 0x1_0000_0000,
    ensures
        ({
            let first = SpeakerLink::Header.next(SpeakerEvent::Header(header));
            let second = first.0.next(SpeakerEvent::Data(data));
            &&& first.1 == SpeakerAction::ReadData(c.data.len() as u32)
            &&& second == (SpeakerLink::Header, SpeakerAction::Play(c))
        }),
{
}

/// How a read without a speaker went.
#[derive(Debug, Clone, Copy, PartialEq, Eq, Structural)]
pub enum DrainEvent {
    /// This many bytes came.
    Read(usize),
    /// The stream ended or failed.
    Ended,
    /// The connection was cancelled.
    Cancelled,
}

/// Whether to go on reading, and dropping, what a client sends to a server without a speaker.
pub fn keeps_draining(event: DrainEvent) -> (r: bool)
    ensures
        r == (event matches DrainEvent::Read(n) && n > 0),
{
    match event {
        DrainEvent::Read(n) => n > 0,
        _ => false,
    }
}

/// What the microphone side of a connection waits for.
#[derive(Debug)]
pub enum MicEvent {
    /// A frame was captured.
    Captured(AudioFrame),
    /// What was handed out was sent.
    Sent,
    /// It could not be sent.
    SendFailed,
    /// No further frame will come.
    Closed,
    /// The connection was cancelled.
    Cancelled,
}

/// What the microphone side does next.
#[derive(Debug)]
pub enum MicStep {
    /// Send these bytes.
    Send(Vec<u8>),
    /// Wait for a frame.
    Wait,
    /// End.
    End,
}

/// The network side of a microphone.
#[derive(Debug)]
pub enum MicLink {
    /// Waiting for a frame.
    Idle,
    /// The header is being sent; this is the data that follows.
    Header { data: Vec<u8> },
    /// The data is being sent.
    Data,
}

impl MicLink {
    /// Takes an event and says what to do next: a frame goes out as its header and then its
    /// data. An event that does not belong to the state leaves it waiting.
    pub fn step(self, event: MicEvent) -> (r: (MicLink, MicStep))
        ensures
            match event {
                MicEvent::SendFailed | MicEvent::Closed | MicEvent::Cancelled => r.1 is End && r.0 is Idle,
                MicEvent::Captured(frame) => if self is Idle {
                    &&& r.0 matches MicLink::Header { data } && data@ == frame@.data
                    &&& r.1 matches MicStep::Send(bytes) && bytes@ == frame@.header()
                } else {
                    r.0 == self && r.1 is Wait
                },
                MicEvent::Sent => match self {
                    MicLink::Header { data } => {
                        &&& r.0 is Data
                        &&& r.1 matches MicStep::Send(bytes) && bytes@ == data@
                    },
                    _ => r.0 is Idle && r.1 is Wait,
                },
            },
    {
        match event {
            MicEvent::SendFailed | MicEvent::Closed | MicEvent::Cancelled => (
                MicLink::Idle,
                MicStep::End,
            ),
            MicEvent::Captured(frame) => match self {
                MicLink::Idle => {
                    let header = frame.encode_header();
                    let mut bytes: Vec<u8> = Vec::new();
                    put_bytes(&mut bytes, header.as_slice());
                    assert(bytes@ =~= header@);
                    (MicLink::Header { data: frame.data }, MicStep::Send(bytes))
                },
                other => (other, MicStep::Wait),
            },
            MicEvent::Sent => match self {
                MicLink::Header { data } => (MicLink::Data, MicStep::Send(data)),
                _ => (MicLink::Idle, MicStep::Wait),
            },
        }
    }
}

} // verus!
