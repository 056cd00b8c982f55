//! Audio frames: their wire formats, and the buffers between frames and devices.

use crate::endian::{
    get_le16, get_le32, get_le64, le16, le16_at, le16_read, le32, le32_at, le32_read, le32_truncates,
    le64, le64_at, le64_read, low32, put_bytes, put_le16, put_le32, put_le64,
};
use crate::text::{chars_of, decimal, decimal_of, find, find_from, joined2};
use crate::rates::rounded_down;
use vstd::prelude::*;

verus! {

/// Audio sample format.
#[derive(Debug, Clone, Copy, PartialEq, Eq, Structural)]
pub enum SampleFormat {
    /// 16-bit signed integer
    I16,
    /// 32-bit float
    F32,
}

/// Why audio data could not be read.
#[derive(Debug, Clone, Copy, PartialEq, Eq, Structural)]
pub enum AudioError {
    /// Unknown sample format
    UnknownFormat { code: u16 },
    /// MoQ audio frame too short
    TooShort { len: usize },
}

impl SampleFormat {
    /// The code of the format on the wire.
    pub open spec fn code(self) -> u16 {
        match self {
            SampleFormat::I16 => 0,
            SampleFormat::F32 => 1,
        }
    }

    /// The format that a code stands for.
    pub open spec fn of_code(v: int) -> Option<SampleFormat> {
        if v == 0 {
            Some(SampleFormat::I16)
        } else if v == 1 {
            Some(SampleFormat::F32)
        } else {
            None
        }
    }

    /// Bytes per sample for this format.
    pub fn bytes_per_sample(&self) -> (r: usize)
        ensures
            r == (match *self {
                SampleFormat::I16 => 2usize,
                SampleFormat::F32 => 4usize,
            }),
    {
        match self {
            SampleFormat::I16 => 2,
            SampleFormat::F32 => 4,
        }
    }

    /// Wire encoding value.
    pub fn to_wire(&self) -> (r: u16)
        ensures
            r == self.code(),
    {
        match self {
            SampleFormat::I16 => 0,
            SampleFormat::F32 => 1,
        }
    }

    /// Decode from wire encoding.
    pub fn from_wire(v: u16) -> (r: Result<Self, AudioError>)
        ensures
            match r {
                Ok(f) => SampleFormat::of_code(v as int) == Some(f),
                Err(e) => SampleFormat::of_code(v as int) is None && e == (AudioError::UnknownFormat {
                    code: v,
                }),
            },
    {
        match v {
            0 => Ok(SampleFormat::I16),
            1 => Ok(SampleFormat::F32),
            _ => Err(AudioError::UnknownFormat { code: v }),
        }
    }
}

/// Every sample format reads back from its code.
pub proof fn format_codes_read_back(f: SampleFormat)
    ensures
        SampleFormat::of_code(f.code() as int) == Some(f),
{
}

/// Audio configuration (sample rate, channels, format).
#[derive(Debug, Clone, Copy, PartialEq, Eq, Structural)]
pub struct AudioConfig {
    pub sample_rate: u32,
    pub channels: u16,
    pub sample_format: SampleFormat,
}

impl Default for AudioConfig {
    fn default() -> (r: Self)
        ensures
            r == (AudioConfig {
                sample_rate: 48000,
                channels: 1,
                sample_format: SampleFormat::I16,
            }),
    {
        AudioConfig { sample_rate: 48000, channels: 1, sample_format: SampleFormat::I16 }
    }
}

/// A single chunk of audio data.
#[derive(Debug, Clone)]
pub struct AudioFrame {
    pub data: Vec<u8>,
    pub frame_count: u32,
    pub timestamp_us: u64,
    pub config: AudioConfig,
}

/// What an [`AudioFrame`] holds.
#[verifier::ext_equal]
pub struct Chunk {
    pub data: Seq<u8>,
    pub frame_count: u32,
    pub timestamp_us: u64,
    pub config: AudioConfig,
}

impl View for AudioFrame {
    type V = Chunk;

    open spec fn view(&self) -> Chunk {
        Chunk {
            data: self.data@,
            frame_count: self.frame_count,
            timestamp_us: self.timestamp_us,
            config: self.config,
        }
    }
}

/// Wire header size for iroh transport (24 bytes).
pub const WIRE_HEADER_SIZE: usize = 24;

/// Wire header size for MoQ transport (20 bytes, truncated timestamp).
pub const MOQ_HEADER_SIZE: usize = 20;

/// Sample rate (4), channels (2) and sample format (2), least significant byte first.
pub open spec fn config_bytes(c: AudioConfig) -> Seq<u8> {
    le32(c.sample_rate as int) + le16(c.channels as int) + le16(c.sample_format.code() as int)
}

/// The configuration that a header begins with.
pub open spec fn config_at(s: Seq<u8>) -> Option<AudioConfig> {
    match SampleFormat::of_code(le16_at(s, 6)) {
        Some(sample_format) => Some(
            AudioConfig {
                sample_rate: le32_at(s, 0) as u32,
                channels: le16_at(s, 4) as u16,
                sample_format,
            },
        ),
        None => None,
    }
}

impl Chunk {
    /// The header of a chunk on a direct connection: configuration (8), frame count (4),
    /// timestamp (8), low 32 bits of the data length (4).
    pub open spec fn header(self) -> Seq<u8> {
        config_bytes(self.config) + le32(self.frame_count as int) + le64(self.timestamp_us as int)
            + le32(self.data.len() as int)
    }

    /// The chunk as it travels over a relay: configuration (8), frame count (4), low 32 bits of
    /// the timestamp (4) and of the data length (4), data.
    pub open spec fn relayed(self) -> Seq<u8> {
        config_bytes(self.config) + le32(self.frame_count as int) + le32(self.timestamp_us as int)
            + le32(self.data.len() as int) + self.data
    }

    /// The chunk that came over a relay.
    pub open spec fn from_relay(s: Seq<u8>) -> Option<Chunk> {
        match config_at(s) {
            Some(config) => Some(
                Chunk {
                    data: s.subrange(20, 20 + le32_at(s, 16)),
                    frame_count: le32_at(s, 8) as u32,
                    timestamp_us: le32_at(s, 12) as u64,
                    config,
                },
            ),
            None => None,
        }
    }
}

/// Whether the data that a relayed chunk announces is all there.
pub open spec fn relay_complete(s: Seq<u8>) -> bool {
    s.len() >= 20 && config_at(s) is Some ==> 20 + le32_at(s, 16) <= s.len()
}

fn put_config(buf: &mut Vec<u8>, c: &AudioConfig)
    ensures
        final(buf)@ == old(buf)@ + config_bytes(*c),
{
    put_le32(buf, c.sample_rate);
    put_le16(buf, c.channels);
    put_le16(buf, c.sample_format.to_wire());
    assert(buf@ =~= old(buf)@ + config_bytes(*c));
}

fn put_low_le32(buf: &mut Vec<u8>, x: u64)
    ensures
        final(buf)@ == old(buf)@ + le32(x as int),
{
    proof {
        le32_truncates(x as int, x as int % 0x1_0000_0000);
    }
    put_le32(buf, low32(x));
}

fn get_config(data: &[u8]) -> (r: Result<AudioConfig, AudioError>)
    requires
        data@.len() >= 8,
    ensures
        match r {
            Ok(c) => config_at(data@) == Some(c),
            Err(e) => config_at(data@) is None && e == (AudioError::UnknownFormat {
                code: le16_at(data@, 6) as u16,
            }),
        },
{
    let sample_rate: u32 = get_le32(data, 0);
    let channels: u16 = get_le16(data, 4);
    match SampleFormat::from_wire(get_le16(data, 6)) {
        Ok(sample_format) => Ok(AudioConfig { sample_rate, channels, sample_format }),
        Err(e) => Err(e),
    }
}

impl AudioFrame {
    /// Encode the frame header for iroh wire protocol (24 bytes).
    pub fn encode_header(&self) -> (r: [u8; WIRE_HEADER_SIZE])
        ensures
            r@ == self@.header(),
    {
        let mut h: Vec<u8> = Vec::new();
        put_config(&mut h, &self.config);
        assert(h@ =~= config_bytes(self.config));
        put_le32(&mut h, self.frame_count);
        put_le64(&mut h, self.timestamp_us);
        put_low_le32(&mut h, self.data.len() as u64);
        assert(h@ == self@.header());
        assert(h@.len() == 24);
        let r: [u8; 24] = [
            h[0],
            h[1],
            h[2],
            h[3],
            h[4],
            h[5],
            h[6],
            h[7],
            h[8],
            h[9],
            h[10],
            h[11],
            h[12],
            h[13],
            h[14],
            h[15],
            h[16],
            h[17],
            h[18],
            h[19],
            h[20],
            h[21],
            h[22],
            h[23],
        ];
        assert(r@ =~= h@);
        r
    }

    /// Decode a frame header from iroh wire protocol (24 bytes).
    pub fn decode_header(header: &[u8; WIRE_HEADER_SIZE]) -> (r: Result<
        (AudioConfig, u32, u64, u32),
        AudioError,
    >)
        ensures
            match r {
                Ok((config, frame_count, timestamp_us, data_length)) => {
                    &&& config_at(header@) == Some(config)
                    &&& frame_count == le32_at(header@, 8)
                    &&& timestamp_us == le64_at(header@, 12)
                    &&& data_length == le32_at(header@, 20)
                },
                Err(e) => config_at(header@) is None && e == (AudioError::UnknownFormat {
                    code: le16_at(header@, 6) as u16,
                }),
            },
    {
        let s = header.as_slice();
        match get_config(s) {
            Ok(config) => Ok((config, get_le32(s, 8), get_le64(s, 12), get_le32(s, 20))),
            Err(e) => Err(e),
        }
    }

    /// Encode the frame for MoQ (20-byte header + data, self-delimiting).
    pub fn encode_moq(&self) -> (r: Vec<u8>)
        ensures
            r@ == self@.relayed(),
    {
        let mut buf: Vec<u8> = Vec::new();
        put_config(&mut buf, &self.config);
        assert(buf@ =~= config_bytes(self.config));
        put_le32(&mut buf, self.frame_count);
        put_low_le32(&mut buf, self.timestamp_us);
        put_low_le32(&mut buf, self.data.len() as u64);
        put_bytes(&mut buf, &self.data);
        buf
    }

    /// Decode a MoQ frame (20-byte header + data).
    pub fn decode_moq(data: &[u8]) -> (r: Result<Self, AudioError>)
        requires
            relay_complete(data@),
        ensures
            match r {
                Ok(frame) => data@.len() >= 20 && Chunk::from_relay(data@) == Some(frame@),
                Err(e) => if data@.len() < 20 {
                    e == (AudioError::TooShort { len: data@.len() as usize })
                } else {
                    Chunk::from_relay(data@) is None && e == (AudioError::UnknownFormat {
                        code: le16_at(data@, 6) as u16,
                    })
                },
            },
    {
        if data.len() < MOQ_HEADER_SIZE {
            return Err(AudioError::TooShort { len: data.len() });
        }
        let config = match get_config(data) {
            Ok(config) => config,
            Err(e) => return Err(e),
        };
        let frame_count: u32 = get_le32(data, 8);
        let timestamp_us: u64 = get_le32(data, 12) as u64;
        let data_length: usize = get_le32(data, 16) as usize;
        let pcm = vstd::slice::slice_to_vec(
            vstd::slice::slice_subrange(data, MOQ_HEADER_SIZE, MOQ_HEADER_SIZE + data_length),
        );
        Ok(AudioFrame { data: pcm, frame_count, timestamp_us, config })
    }

    /// Whether the data that a relayed frame announces is all there, so that it can be decoded.
    pub fn moq_complete(data: &[u8]) -> (r: bool)
        ensures
            r == relay_complete(data@),
    {
        if data.len() < MOQ_HEADER_SIZE {
            return true;
        }
        match get_config(data) {
            Ok(_) => get_le32(data, 16) as usize <= data.len() - MOQ_HEADER_SIZE,
            Err(_) => true,
        }
    }

    /// A frame that was captured from a device: `samples` counts the samples of all channels.
    pub fn captured(
        data: Vec<u8>,
        samples: usize,
        timestamp_us: u64,
        config: AudioConfig,
    ) -> (r: Self)
        requires
            config.channels > 0,
        ensures
            r@.data == data@,
            r@.frame_count == (samples as int / config.channels as int) % 0x1_0000_0000,
            samples < 0x1_0000_0000 ==> r@.frame_count * config.channels <= samples < (r@.frame_count
                + 1) * config.channels,
            r@.timestamp_us == timestamp_us,
            r@.config == config,
    {
        proof {
            rounded_down(samples as int, config.channels as int);
            assert(samples as int / config.channels as int <= samples) by (nonlinear_arith)
                requires
                    config.channels > 0,
                    samples >= 0,
            ;
        }
        let frames: usize = samples / config.channels as usize;
        AudioFrame { data, frame_count: low32(frames as u64), timestamp_us, config }
    }
}

proof fn config_parts(c: AudioConfig, s: Seq<u8>)
    requires
        s.len() >= 8,
        s.take(8) == config_bytes(c),
    ensures
        config_at(s) == Some(c),
        le32_at(s, 0) == c.sample_rate,
        le16_at(s, 4) == c.channels,
        le16_at(s, 6) == (if c.sample_format == SampleFormat::I16 {
            0int
        } else {
            1
        }),
{
    let t = s.take(8);
    assert(s.subrange(0, 4) =~= t.subrange(0, 4));
    assert(s.subrange(4, 6) =~= t.subrange(4, 6));
    assert(s.subrange(6, 8) =~= t.subrange(6, 8));
    assert(t.subrange(0, 4) =~= le32(c.sample_rate as int));
    assert(t.subrange(4, 6) =~= le16(c.channels as int));
    assert(t.subrange(6, 8) =~= le16(c.sample_format.code() as int));
    assert(le32_at(s, 0) == c.sample_rate) by {
        le32_read(s, 0, c.sample_rate as int);
    }
    assert(le16_at(s, 4) == c.channels) by {
        le16_read(s, 4, c.channels as int);
    }
    assert(le16_at(s, 6) == c.sample_format.code()) by {
        le16_read(s, 6, c.sample_format.code() as int);
    }
}

proof fn header_slices(a: Seq<u8>, b: Seq<u8>, c: Seq<u8>, d: Seq<u8>)
    requires
        a.len() == 8,
        b.len() == 4,
    ensures
        ({
            let s = a + b + c + d;
            &&& s.take(8) == a
            &&& s.subrange(8, 12) == b
            &&& s.subrange(12, 12 + c.len() as int) == c
            &&& s.subrange(12 + c.len() as int, 12 + c.len() as int + d.len() as int) == d
        }),
{
    let s = a + b + c + d;
    assert(s.take(8) =~= a);
    assert(s.subrange(8, 12) =~= b);
    assert(s.subrange(12, 12 + c.len() as int) =~= c);
    assert(s.subrange(12 + c.len() as int, 12 + c.len() as int + d.len() as int) =~= d);
}

/// Decoding the header of a chunk gives back its configuration, frame count and timestamp, and
/// the low 32 bits of its data length.
pub proof fn header_reads_back(c: Chunk)
    ensures
        c.header().len() == WIRE_HEADER_SIZE,
        config_at(c.header()) == Some(c.config),
        le32_at(c.header(), 8) == c.frame_count,
        le64_at(c.header(), 12) == c.timestamp_us,
        le32_at(c.header(), 20) == c.data.len() as int % 0x1_0000_0000,
{
    let s = c.header();
    header_slices(
        config_bytes(c.config),
        le32(c.frame_count as int),
        le64(c.timestamp_us as int),
        le32(c.data.len() as int),
    );
    header_fields(s, c);
}

/// Both headers begin with the configuration: sample rate (4), channels (2) and format (2), then the
/// frame count (4). On a direct connection a timestamp of 8 bytes follows, over a relay one of 4, and
/// then the length of the data.
pub proof fn headers_are_laid_out(c: Chunk)
    ensures
        ({
            let format: int = if c.config.sample_format == SampleFormat::I16 {
                0
            } else {
                1
            };
            let (s, t) = (c.header(), c.relayed());
            &&& s.len() == 24
            &&& t.len() == 20 + c.data.len()
            &&& le32_at(s, 0) == c.config.sample_rate && le32_at(t, 0) == c.config.sample_rate
            &&& le16_at(s, 4) == c.config.channels && le16_at(t, 4) == c.config.channels
            &&& le16_at(s, 6) == format && le16_at(t, 6) == format
            &&& le32_at(s, 8) == c.frame_count && le32_at(t, 8) == c.frame_count
            &&& le64_at(s, 12) == c.timestamp_us && le32_at(t, 12) == c.timestamp_us % 0x1_0000_0000
            &&& le32_at(s, 20) == c.data.len() as int % 0x1_0000_0000 && le32_at(t, 16) == c.data.len() as int
                % 0x1_0000_0000
            &&& t.skip(20) == c.data
        }),
{
    header_reads_back(c);
    let s = c.header();
    header_slices(
        config_bytes(c.config),
        le32(c.frame_count as int),
        le64(c.timestamp_us as int),
        le32(c.data.len() as int),
    );
    config_parts(c.config, s);
    relayed_is_laid_out(c);
}

proof fn relayed_is_laid_out(c: Chunk)
    ensures
        ({
            let t = c.relayed();
            &&& t.len() == 20 + c.data.len()
            &&& le32_at(t, 0) == c.config.sample_rate
            &&& le16_at(t, 4) == c.config.channels
            &&& le16_at(t, 6) == (if c.config.sample_format == SampleFormat::I16 {
                0int
            } else {
                1
            })
            &&& le32_at(t, 8) == c.frame_count
            &&& le32_at(t, 12) == c.timestamp_us % 0x1_0000_0000
            &&& le32_at(t, 16) == c.data.len() as int % 0x1_0000_0000
            &&& t.skip(20) == c.data
        }),
{
    let t = c.relayed();
    let tail = le32(c.data.len() as int) + c.data;
    assert(t =~= config_bytes(c.config) + le32(c.frame_count as int) + le32(c.timestamp_us as int) + tail);
    header_slices(
        config_bytes(c.config),
        le32(c.frame_count as int),
        le32(c.timestamp_us as int),
        tail,
    );
    config_parts(c.config, t);
    assert(t.subrange(16, 20) =~= tail.take(4));
    assert(tail.take(4) =~= le32(c.data.len() as int));
    le32_read(t, 8, c.frame_count as int);
    le32_read(t, 12, c.timestamp_us as int);
    le32_read(t, 16, c.data.len() as int);
    assert(t.skip(20) =~= c.data);
}

#[verifier::spinoff_prover]
proof fn header_fields(s: Seq<u8>, c: Chunk)
    requires
        s.len() >= 24,
        s.take(8) == config_bytes(c.config),
        s.subrange(8, 12) == le32(c.frame_count as int),
        s.subrange(12, 20) == le64(c.timestamp_us as int),
        s.subrange(20, 24) == le32(c.data.len() as int),
    ensures
        config_at(s) == Some(c.config),
        le32_at(s, 8) == c.frame_count,
        le64_at(s, 12) == c.timestamp_us,
        le32_at(s, 20) == c.data.len() as int % 0x1_0000_0000,
{
    config_parts(c.config, s);
    assert(le32_at(s, 8) == c.frame_count) by {
        le32_read(s, 8, c.frame_count as int);
    }
    assert(le64_at(s, 12) == c.timestamp_us) by {
        le64_read(s, 12, c.timestamp_us as int);
    }
    le32_read(s, 20, c.data.len() as int);
}

/// Decoding a relayed chunk gives the chunk back, its timestamp reduced to the low 32 bits.
pub proof fn relayed_chunk_reads_back(c: Chunk)
    requires
        c.data.len() < 0x1_0000_0000,
    ensures
        c.relayed().len() == 20 + c.data.len(),
        relay_complete(c.relayed()),
        Chunk::from_relay(c.relayed()) == Some(
            Chunk { timestamp_us: (c.timestamp_us % 0x1_0000_0000) as u64, ..c },
        ),
{
    let s = c.relayed();
    let tail = le32(c.data.len() as int) + c.data;
    assert(s =~= config_bytes(c.config) + le32(c.frame_count as int) + le32(c.timestamp_us as int) + tail);
    header_slices(
        config_bytes(c.config),
        le32(c.frame_count as int),
        le32(c.timestamp_us as int),
        tail,
    );
    relayed_fields(s, tail, c);
}

#[verifier::spinoff_prover]
#[verifier::rlimit(60)]
proof fn relayed_fields(s: Seq<u8>, tail: Seq<u8>, c: Chunk)
    requires
        c.data.len() < 0x1_0000_0000,
        s.len() == 20 + c.data.len(),
        s.take(8) == config_bytes(c.config),
        s.subrange(8, 12) == le32(c.frame_count as int),
        s.subrange(12, 16) == le32(c.timestamp_us as int),
        s.subrange(16, 20 + c.data.len() as int) == tail,
        tail == le32(c.data.len() as int) + c.data,
    ensures
        relay_complete(s),
        Chunk::from_relay(s) == Some(
            Chunk { timestamp_us: (c.timestamp_us % 0x1_0000_0000) as u64, ..c },
        ),
{
    assert(config_at(s) == Some(c.config)) by {
        config_parts(c.config, s);
    }
    assert(le32_at(s, 8) == c.frame_count) by {
        le32_read(s, 8, c.frame_count as int);
    }
    assert(le32_at(s, 12) == c.timestamp_us % 0x1_0000_0000) by {
        le32_read(s, 12, c.timestamp_us as int);
    }
    assert(s.subrange(16, 20) =~= tail.take(4));
    assert(le32_at(s, 16) == c.data.len()) by {
        assert(tail.take(4) =~= le32(c.data.len() as int));
        le32_read(s, 16, c.data.len() as int);
    }
    assert(s.subrange(20, 20 + c.data.len() as int) =~= c.data) by {
        assert(s.subrange(20, 20 + c.data.len() as int) =~= tail.skip(4));
        assert(tail.skip(4) =~= c.data);
    }
    relayed_values(s, c);
}

proof fn relayed_values(s: Seq<u8>, c: Chunk)
    requires
        s.len() == 20 + c.data.len(),
        config_at(s) == Some(c.config),
        le32_at(s, 8) == c.frame_count,
        le32_at(s, 12) == c.timestamp_us % 0x1_0000_0000,
        le32_at(s, 16) == c.data.len(),
        s.subrange(20, 20 + c.data.len() as int) == c.data,
    ensures
        relay_complete(s),
        Chunk::from_relay(s) == Some(
            Chunk { timestamp_us: (c.timestamp_us % 0x1_0000_0000) as u64, ..c },
        ),
{
}

/// 16-bit samples as bytes, least significant byte first.
pub open spec fn sample_bytes(samples: Seq<i16>) -> Seq<u8>
    decreases samples.len(),
{
    if samples.len() == 0 {
        Seq::empty()
    } else {
        sample_bytes(samples.drop_last()) + le16(samples.last() as int)
    }
}

/// Writes captured 16-bit samples as bytes.
pub fn samples_to_bytes(samples: &[i16]) -> (r: Vec<u8>)
    ensures
        r@ == sample_bytes(samples@),
{
    let mut buf: Vec<u8> = Vec::new();
    let mut i: usize = 0;
    while i < samples.len()
        invariant
            i <= samples@.len(),
            buf@ == sample_bytes(samples@.take(i as int)),
        decreases samples@.len() - i,
    {
        let x: i16 = samples[i];
        let bits: u16 = if x >= 0 {
            x as u16
        } else {
            (x as i32 + 0x1_0000) as u16
        };
        proof {
            le16_of_bits(x, bits);
            assert(samples@.take(i + 1).drop_last() =~= samples@.take(i as int));
        }
        put_le16(&mut buf, bits);
        i = i + 1;
    }
    assert(samples@.take(i as int) =~= samples@);
    buf
}

proof fn le16_of_bits(x: i16, bits: u16)
    requires
        bits == (if x >= 0 {
            x as int
        } else {
            x + 0x1_0000
        }),
    ensures
        le16(x as int) == le16(bits as int),
{
    let n = x as int;
    if n < 0 {
        assert((n + 0x1_0000) / 0x100 == n / 0x100 + 0x100);
    }
}

/// The 16-bit sample at byte `at`.
pub open spec fn sample_at(s: Seq<u8>, at: int) -> int {
    let bits = le16_at(s, at);
    if bits < 0x8000 {
        bits
    } else {
        bits - 0x1_0000
    }
}

/// Reads 16-bit samples from bytes; a last odd byte is left out.
pub fn bytes_to_samples(data: &[u8]) -> (r: Vec<i16>)
    ensures
        r@.len() == data@.len() / 2,
        forall|i: int| 0 <= i < r@.len() ==> #[trigger] r@[i] == sample_at(data@, 2 * i),
{
    let n: usize = data.len() / 2;
    let mut r: Vec<i16> = Vec::new();
    let mut i: usize = 0;
    while i < n
        invariant
            i <= n,
            n == data@.len() / 2,
            data@.len() == data.len(),
            r@.len() == i,
            forall|j: int| 0 <= j < i ==> #[trigger] r@[j] == sample_at(data@, 2 * j),
        decreases n - i,
    {
        let bits: u16 = get_le16(data, 2 * i);
        let x: i16 = if bits < 0x8000 {
            bits as i16
        } else {
            (bits as i32 - 0x1_0000) as i16
        };
        r.push(x);
        i = i + 1;
    }
    r
}

proof fn sample_bytes_hold(samples: Seq<i16>)
    ensures
        sample_bytes(samples).len() == 2 * samples.len(),
        forall|i: int|
            0 <= i < samples.len() ==> sample_at(sample_bytes(samples), 2 * i) == #[trigger] samples[i],
    decreases samples.len(),
{
    if samples.len() > 0 {
        let front = samples.drop_last();
        let s = sample_bytes(samples);
        let x = samples.last() as int;
        sample_bytes_hold(front);
        assert forall|i: int| 0 <= i < samples.len() implies sample_at(s, 2 * i) == #[trigger] samples[i] by {
            if i < front.len() {
                assert(front[i] == samples[i]);
                assert(s[2 * i] == sample_bytes(front)[2 * i]);
                assert(s[2 * i + 1] == sample_bytes(front)[2 * i + 1]);
            } else {
                assert(s.subrange(2 * i, 2 * i + 2) =~= le16(x));
                le16_read(s, 2 * i, x);
            }
        }
    }
}

/// Samples written as bytes read back.
pub proof fn samples_read_back(samples: Seq<i16>)
    ensures
        sample_bytes(samples).len() == 2 * samples.len(),
        forall|i: int|
            0 <= i < samples.len() ==> sample_at(sample_bytes(samples), 2 * i) == #[trigger] samples[i],
{
    sample_bytes_hold(samples);
}

/// PCM data on its way to a speaker.
#[derive(Debug)]
pub struct Playback {
    pub pending: Vec<u8>,
}

impl Playback {
    /// Nothing to play.
    pub fn new() -> (r: Self)
        ensures
            r.pending@ == Seq::<u8>::empty(),
    {
        Playback { pending: Vec::new() }
    }

    /// Whether a further chunk is needed before `needed` bytes can be played.
    pub fn wants(&self, needed: usize) -> (r: bool)
        ensures
            r == (self.pending@.len() < needed),
    {
        self.pending.len() < needed
    }

    /// A chunk arrived.
    pub fn push(&mut self, chunk: &[u8])
        ensures
            final(self).pending@ == old(self).pending@ + chunk@,
    {
        put_bytes(&mut self.pending, chunk);
    }

    /// The next `needed` bytes. Where there are too few, silence is played (`None`) and what
    /// there was is dropped.
    pub fn take(&mut self, needed: usize) -> (r: Option<Vec<u8>>)
        ensures
            match r {
                Some(bytes) => old(self).pending@.len() >= needed && bytes@
                    == old(self).pending@.take(needed as int) && final(self).pending@
                    == old(self).pending@.skip(needed as int),
                None => old(self).pending@.len() < needed && final(self).pending@ == Seq::<
                    u8,
                >::empty(),
            },
    {
        if self.pending.len() < needed {
            self.pending.clear();
            return None;
        }
        let rest = self.pending.split_off(needed);
        let bytes = vstd::slice::slice_to_vec(self.pending.as_slice());
        assert(bytes@ =~= old(self).pending@.take(needed as int));
        assert(rest@ =~= old(self).pending@.skip(needed as int));
        self.pending = rest;
        Some(bytes)
    }
}

impl Default for Playback {
    fn default() -> (r: Self)
        ensures
            r.pending@ == Seq::<u8>::empty(),
    {
        Self::new()
    }
}

/// Information about an audio device.
#[derive(Debug, Clone)]
pub struct AudioDeviceInfo {
    pub index: usize,
    pub name: String,
}

/// Audio device enumeration.
pub struct AudioDevice;

impl AudioDevice {
    /// An input device; one whose name cannot be read is called "Input" and its index.
    pub fn input_info(index: usize, name: Option<String>) -> (r: AudioDeviceInfo)
        ensures
            r.index == index,
            r.name@ == (match name {
                Some(n) => n@,
                None => "Input "@ + decimal(index as nat),
            }),
    {
        let name = match name {
            Some(n) => n,
            None => joined2("Input ", &decimal_of(index as u64)),
        };
        AudioDeviceInfo { index, name }
    }

    /// An output device; one whose name cannot be read is called "Output" and its index.
    pub fn output_info(index: usize, name: Option<String>) -> (r: AudioDeviceInfo)
        ensures
            r.index == index,
            r.name@ == (match name {
                Some(n) => n@,
                None => "Output "@ + decimal(index as nat),
            }),
    {
        let name = match name {
            Some(n) => n,
            None => joined2("Output ", &decimal_of(index as u64)),
        };
        AudioDeviceInfo { index, name }
    }

    /// The first device whose name holds `wanted`. Devices without a readable name are passed
    /// over.
    pub fn matching(names: &[Option<String>], wanted: &str) -> (r: Option<usize>)
        ensures
            match r {
                Some(i) => {
                    &&& i < names@.len()
                    &&& names@[i as int] matches Some(n) && find(n@, wanted@, 0) is Some
                    &&& forall|j: int|
                        0 <= j < i ==> !(#[trigger] names@[j] matches Some(n) && find(n@, wanted@, 0)
                            is Some)
                },
                None => forall|j: int|
                    0 <= j < names@.len() ==> !(#[trigger] names@[j] matches Some(n) && find(
                        n@,
                        wanted@,
                        0,
                    ) is Some),
            },
    {
        let mut i: usize = 0;
        while i < names.len()
            invariant
                i <= names@.len(),
                forall|j: int|
                    0 <= j < i ==> !(#[trigger] names@[j] matches Some(n) && find(n@, wanted@, 0) is Some),
            decreases names@.len() - i,
        {
            if let Some(n) = &names[i] {
                let chars = chars_of(n);
                if find_from(&chars, wanted, 0).is_some() {
                    return Some(i);
                }
            }
            i = i + 1;
        }
        None
    }
}

} // verus!
