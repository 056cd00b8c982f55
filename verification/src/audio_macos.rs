//! Voice processing on macOS: the order in which an audio unit is set up and taken down, the
//! stream format it is given, and the buffers of its callbacks.

use crate::audio::{AudioConfig, SampleFormat};
use crate::cmaf::layout::zeros;
use crate::endian::{be32, bits32, put_be32, put_bytes, put_zeros};
use crate::text::{put_signed, signed_decimal};
use vstd::prelude::*;
use vstd::string::StringExecFns;

verus! {

/// Enables input or output on a bus.
pub const ENABLE_IO: u32 = 2003;

/// The stream format of a bus.
pub const STREAM_FORMAT: u32 = 8;

/// Who provides the data to play.
pub const SET_RENDER_CALLBACK: u32 = 23;

/// Who is told of captured data.
pub const SET_INPUT_CALLBACK: u32 = 2005;

pub const SCOPE_GLOBAL: u32 = 0;

pub const SCOPE_INPUT: u32 = 1;

pub const SCOPE_OUTPUT: u32 = 2;

/// 'lpcm'
pub const FORMAT_LINEAR_PCM: u32 = 0x6C70_636D;

/// A stream format. The sample rate is in hertz.
#[derive(Debug, Clone, Copy, PartialEq, Eq, Structural)]
pub struct StreamFormat {
    pub sample_rate: u32,
    pub format_id: u32,
    pub format_flags: u32,
    pub bytes_per_packet: u32,
    pub frames_per_packet: u32,
    pub bytes_per_frame: u32,
    pub channels_per_frame: u32,
    pub bits_per_channel: u32,
}

/// Packed linear PCM with the given configuration. Flag 8 stands for packed, 4 for signed
/// integers, 1 for floats.
pub open spec fn linear_pcm(config: AudioConfig) -> StreamFormat {
    let bytes: u32 = if config.sample_format == SampleFormat::I16 {
        2
    } else {
        4
    };
    StreamFormat {
        sample_rate: config.sample_rate,
        format_id: FORMAT_LINEAR_PCM,
        format_flags: if config.sample_format == SampleFormat::I16 {
            12
        } else {
            9
        },
        bytes_per_packet: (bytes * config.channels) as u32,
        frames_per_packet: 1,
        bytes_per_frame: (bytes * config.channels) as u32,
        channels_per_frame: config.channels as u32,
        bits_per_channel: (bytes * 8) as u32,
    }
}

/// Bytes that a callback moves for a number of frames.
pub open spec fn bytes_of_frames(frames: u32, config: AudioConfig) -> int {
    frames * config.channels * (if config.sample_format == SampleFormat::I16 {
        2int
    } else {
        4int
    })
}

/// The fields of a format agree: a frame has one sample of each channel, a packet is one frame, a
/// callback moves whole frames, samples are packed, and they are signed integers or floats, not
/// both.
pub proof fn format_fields_agree(config: AudioConfig, frames: u32)
    ensures
        ({
            let f = linear_pcm(config);
            &&& f.sample_rate == config.sample_rate
            &&& f.channels_per_frame == config.channels
            &&& 8 * f.bytes_per_frame == f.bits_per_channel * f.channels_per_frame
            &&& f.bits_per_channel == 16 || f.bits_per_channel == 32
            &&& f.bits_per_channel == 16 <==> config.sample_format == SampleFormat::I16
            &&& f.bytes_per_packet == f.frames_per_packet * f.bytes_per_frame
            &&& bytes_of_frames(frames, config) == frames * f.bytes_per_frame
            &&& f.format_flags / 8 % 2 == 1
            &&& f.format_flags / 4 % 2 == 1 <==> config.sample_format == SampleFormat::I16
            &&& f.format_flags % 2 == 1 <==> config.sample_format == SampleFormat::F32
            &&& f.format_flags / 2 % 2 == 0
            &&& f.format_flags < 16
        }),
{
    let bytes: int = if config.sample_format == SampleFormat::I16 {
        2
    } else {
        4
    };
    let (n, c) = (frames as int, config.channels as int);
    assert(n * c * bytes == n * (bytes * c)) by (nonlinear_arith);
    assert(8 * (bytes * c) == bytes * 8 * c) by (nonlinear_arith);
}

/// Packed linear PCM with the given configuration.
pub fn config_to_asbd(config: &AudioConfig) -> (r: StreamFormat)
    ensures
        r == linear_pcm(*config),
{
    let bytes_per_sample: u32 = config.sample_format.bytes_per_sample() as u32;
    let bytes_per_frame: u32 = bytes_per_sample * config.channels as u32;
    let format_flags: u32 = match config.sample_format {
        SampleFormat::I16 => 12,
        SampleFormat::F32 => 9,
    };
    StreamFormat {
        sample_rate: config.sample_rate,
        format_id: FORMAT_LINEAR_PCM,
        format_flags,
        bytes_per_packet: bytes_per_frame,
        frames_per_packet: 1,
        bytes_per_frame,
        channels_per_frame: config.channels as u32,
        bits_per_channel: bytes_per_sample * 8,
    }
}

/// Bytes that a callback moves for `frames` frames.
pub fn buffer_size(frames: u32, config: &AudioConfig) -> (r: u64)
    ensures
        r == bytes_of_frames(frames, *config),
{
    let bytes: u64 = config.sample_format.bytes_per_sample() as u64;
    assert(0 <= frames * config.channels <= 0xFFFF_FFFF * 0xFFFF) by (nonlinear_arith)
        requires
            0 <= frames <= 0xFFFF_FFFF,
            0 <= config.channels <= 0xFFFF,
    ;
    let samples: u64 = frames as u64 * config.channels as u64;
    samples * bytes
}

/// Sound for one call of the output callback.
#[derive(Debug)]
pub struct OutputFill {
    filled: Vec<u8>,
    needed: usize,
}

impl OutputFill {
    /// What has been filled in.
    pub closed spec fn bytes(&self) -> Seq<u8> {
        self.filled@
    }

    /// How many bytes are asked for.
    pub closed spec fn goal(&self) -> nat {
        self.needed as nat
    }

    #[verifier::type_invariant]
    spec fn valid(self) -> bool {
        self.filled@.len() <= self.needed
    }

    /// Nothing filled in yet.
    pub fn new(needed: usize) -> (r: Self)
        ensures
            r.bytes() == Seq::<u8>::empty(),
            r.goal() == needed,
    {
        OutputFill { filled: Vec::new(), needed }
    }

    /// Whether a further chunk is needed.
    pub fn wants_more(&self) -> (r: bool)
        ensures
            r == (self.bytes().len() < self.goal()),
    {
        self.filled.len() < self.needed
    }

    /// Fills in a chunk. What does not fit is dropped.
    pub fn with(self, chunk: &[u8]) -> (r: Self)
        ensures
            r.goal() == self.goal(),
            r.bytes() == (if self.bytes().len() + chunk@.len() <= self.goal() {
                self.bytes() + chunk@
            } else {
                self.bytes() + chunk@.take(self.goal() - self.bytes().len())
            }),
    {
        proof {
            use_type_invariant(&self);
        }
        let room: usize = self.needed - self.filled.len();
        let to_copy: usize = if chunk.len() < room {
            chunk.len()
        } else {
            room
        };
        let mut filled = self.filled;
        let part = vstd::slice::slice_subrange(chunk, 0, to_copy);
        put_bytes(&mut filled, part);
        assert(part@ =~= chunk@.take(to_copy as int));
        assert(to_copy == chunk@.len() ==> part@ =~= chunk@);
        OutputFill { filled, needed: self.needed }
    }

    /// The bytes to play, with silence at the end where chunks were missing.
    pub fn finish(self) -> (r: Vec<u8>)
        ensures
            self.bytes().len() <= self.goal(),
            r@ == self.bytes() + zeros((self.goal() - self.bytes().len()) as nat),
            r@.len() == self.goal(),
    {
        proof {
            use_type_invariant(&self);
        }
        let missing: usize = self.needed - self.filled.len();
        let mut out = self.filled;
        put_zeros(&mut out, missing);
        out
    }
}

/// Whether a byte can stand in a four-character code: a visible ASCII character or a blank.
pub open spec fn printable(b: u8) -> bool {
    0x20 <= b <= 0x7E
}

/// A status code in words: "noErr", or the number, with its four characters where they are
/// printable.
pub open spec fn status_text(status: i32) -> Seq<char> {
    let bytes = be32(status as int);
    if status == 0 {
        "noErr"@
    } else if printable(bytes[0]) && printable(bytes[1]) && printable(bytes[2]) && printable(bytes[3]) {
        "OSStatus "@ + signed_decimal(status as int) + " ('"@ + seq![
            bytes[0] as char,
            bytes[1] as char,
            bytes[2] as char,
            bytes[3] as char,
        ] + "')"@
    } else {
        "OSStatus "@ + signed_decimal(status as int)
    }
}

/// Describes a status code.
pub fn osstatus_description(status: i32) -> (r: String)
    ensures
        r@ == status_text(status),
{
    if status == 0 {
        return "noErr".to_owned();
    }
    let bits: u32 = bits32(status);
    let mut bytes: Vec<u8> = Vec::new();
    proof {
        crate::endian::be32_truncates(status as int, bits as int);
    }
    put_be32(&mut bytes, bits);
    assert(bytes@ =~= be32(status as int));
    let mut text = "OSStatus ".to_owned();
    put_signed(&mut text, status as i64);
    if is_printable(bytes[0]) && is_printable(bytes[1]) && is_printable(bytes[2]) && is_printable(
        bytes[3],
    ) {
        text.append(" ('");
        let ghost before = text@;
        text.push(bytes[0] as char);
        text.push(bytes[1] as char);
        text.push(bytes[2] as char);
        text.push(bytes[3] as char);
        assert(text@ =~= before + seq![
            bytes@[0] as char,
            bytes@[1] as char,
            bytes@[2] as char,
            bytes@[3] as char,
        ]);
        text.append("')");
    }
    text
}

fn is_printable(b: u8) -> (r: bool)
    ensures
        r == printable(b),
{
    0x20 <= b && b <= 0x7E
}

/// A step in setting up the audio unit, in this order.
#[derive(Debug, Clone, Copy, PartialEq, Eq, Structural)]
pub enum Setup {
    /// Create the unit.
    Create,
    /// Enable input on bus 1.
    EnableInput,
    /// Set the format of the speaker (bus 0).
    SpeakerFormat,
    /// Set the format of the microphone (bus 1).
    MicrophoneFormat,
    /// Set who provides the data to play (bus 0). From here on the callbacks' state exists.
    RenderCallback,
    /// Set who is told of captured data (bus 1).
    InputCallback,
    /// Initialize the unit.
    Initialize,
    /// Start it.
    Start,
}

/// What follows a step.
#[derive(Debug)]
pub enum AfterSetup {
    /// Take the next step.
    Go(Setup),
    /// The unit runs.
    Running,
    /// Give up with this message, after the unit has been uninitialized, the callbacks' state
    /// dropped and the unit disposed of, as far as they exist.
    Abort { message: String, uninitialize: bool, drop_state: bool, dispose: bool },
}

impl Setup {
    /// The step after this one.
    pub open spec fn next(self) -> Option<Setup> {
        match self {
            Setup::Create => Some(Setup::EnableInput),
            Setup::EnableInput => Some(Setup::SpeakerFormat),
            Setup::SpeakerFormat => Some(Setup::MicrophoneFormat),
            Setup::MicrophoneFormat => Some(Setup::RenderCallback),
            Setup::RenderCallback => Some(Setup::InputCallback),
            Setup::InputCallback => Some(Setup::Initialize),
            Setup::Initialize => Some(Setup::Start),
            Setup::Start => None,
        }
    }

    /// What is said when the step fails, before the status.
    pub open spec fn complaint(self) -> Seq<char> {
        match self {
            Setup::Create => "AudioComponentInstanceNew failed: "@,
            Setup::EnableInput => "Failed to enable input on bus 1: "@,
            Setup::SpeakerFormat => "Failed to set output stream format: "@,
            Setup::MicrophoneFormat => "Failed to set input stream format: "@,
            Setup::RenderCallback => "Failed to set render callback: "@,
            Setup::InputCallback => "Failed to set input callback: "@,
            Setup::Initialize => "AudioUnitInitialize failed: "@,
            Setup::Start => "AudioOutputUnitStart failed: "@,
        }
    }

    /// Whether the callbacks' state exists while this step is taken.
    pub open spec fn has_state(self) -> bool {
        self == Setup::RenderCallback || self == Setup::InputCallback || self == Setup::Initialize || self
            == Setup::Start
    }

    /// The property, scope and bus that the step sets, where it sets one.
    pub fn property(self) -> (r: Option<(u32, u32, u32)>)
        ensures
            r == (match self {
                Setup::EnableInput => Some((2003u32, 1u32, 1u32)),
                Setup::SpeakerFormat => Some((8u32, 1u32, 0u32)),
                Setup::MicrophoneFormat => Some((8u32, 2u32, 1u32)),
                Setup::RenderCallback => Some((23u32, 0u32, 0u32)),
                Setup::InputCallback => Some((2005u32, 0u32, 1u32)),
                _ => None,
            }),
    {
        match self {
            Setup::EnableInput => Some((ENABLE_IO, SCOPE_INPUT, 1)),
            Setup::SpeakerFormat => Some((STREAM_FORMAT, SCOPE_INPUT, 0)),
            Setup::MicrophoneFormat => Some((STREAM_FORMAT, SCOPE_OUTPUT, 1)),
            Setup::RenderCallback => Some((SET_RENDER_CALLBACK, SCOPE_GLOBAL, 0)),
            Setup::InputCallback => Some((SET_INPUT_CALLBACK, SCOPE_GLOBAL, 1)),
            _ => None,
        }
    }

    /// Decides what follows the step, from the status that it returned.
    pub fn after(self, status: i32) -> (r: AfterSetup)
        ensures
            match r {
                AfterSetup::Go(step) => status == 0 && self.next() == Some(step),
                AfterSetup::Running => status == 0 && self.next() is None,
                AfterSetup::Abort { message, uninitialize, drop_state, dispose } => {
                    &&& status != 0
                    &&& message@ == self.complaint() + status_text(status)
                    &&& uninitialize == (self == Setup::Start)
                    &&& drop_state == self.has_state()
                    &&& dispose == (self != Setup::Create)
                },
            },
    {
        if status != 0 {
            let mut message = match self {
                Setup::Create => "AudioComponentInstanceNew failed: ".to_owned(),
                Setup::EnableInput => "Failed to enable input on bus 1: ".to_owned(),
                Setup::SpeakerFormat => "Failed to set output stream format: ".to_owned(),
                Setup::MicrophoneFormat => "Failed to set input stream format: ".to_owned(),
                Setup::RenderCallback => "Failed to set render callback: ".to_owned(),
                Setup::InputCallback => "Failed to set input callback: ".to_owned(),
                Setup::Initialize => "AudioUnitInitialize failed: ".to_owned(),
                Setup::Start => "AudioOutputUnitStart failed: ".to_owned(),
            };
            let description = osstatus_description(status);
            message.append(&description);
            let drop_state = match self {
                Setup::RenderCallback | Setup::InputCallback | Setup::Initialize
                | Setup::Start => true,
                _ => false,
            };
            let uninitialize = match self {
                Setup::Start => true,
                _ => false,
            };
            let dispose = match self {
                Setup::Create => false,
                _ => true,
            };
            return AfterSetup::Abort { message, uninitialize, drop_state, dispose };
        }
        match self {
            Setup::Create => AfterSetup::Go(Setup::EnableInput),
            Setup::EnableInput => AfterSetup::Go(Setup::SpeakerFormat),
            Setup::SpeakerFormat => AfterSetup::Go(Setup::MicrophoneFormat),
            Setup::MicrophoneFormat => AfterSetup::Go(Setup::RenderCallback),
            Setup::RenderCallback => AfterSetup::Go(Setup::InputCallback),
            Setup::InputCallback => AfterSetup::Go(Setup::Initialize),
            Setup::Initialize => AfterSetup::Go(Setup::Start),
            Setup::Start => AfterSetup::Running,
        }
    }
}

/// The steps of the setup follow one another from the creation of the unit to its start: each is
/// reached from the first, no step leads back to it, and only the start is the last.
pub proof fn every_step_is_taken(step: Setup)
    ensures
        ({
            let s1 = Setup::Create.next()->0;
            let s2 = s1.next()->0;
            let s3 = s2.next()->0;
            let s4 = s3.next()->0;
            let s5 = s4.next()->0;
            let s6 = s5.next()->0;
            let s7 = s6.next()->0;
            step == Setup::Create || step == s1 || step == s2 || step == s3 || step == s4 || step == s5
                || step == s6 || step == s7
        }),
        step.next() is None <==> step == Setup::Start,
        step.next() is Some ==> step.next()->0 != Setup::Create && step.next()->0 != step,
        step.next() == Some(Setup::Start) <==> step == Setup::Initialize,
{
}

/// The callbacks' state exists from the step on that hands the first callback to the unit: it does not
/// exist before, and a step that has it leads to one that has it.
pub proof fn state_exists_from_the_first_callback(step: Setup)
    ensures
        Setup::RenderCallback.has_state(),
        step.next() is Some && step.has_state() ==> step.next()->0.has_state(),
        step.next() is Some && !step.has_state() ==> (step.next()->0.has_state() <==> step.next()
            == Some(Setup::RenderCallback)),
        !Setup::Create.has_state(),
{
}

/// A status other than 0 is described with its number, and the four characters that it may stand for
/// follow in quotes, as they are.
pub proof fn description_names_the_status(status: i32)
    requires
        status != 0,
    ensures
        ({
            let text = "OSStatus "@ + signed_decimal(status as int);
            let bytes = be32(status as int);
            let shown = forall|i: int| 0 <= i < 4 ==> 0x20 <= #[trigger] bytes[i] <= 0x7E;
            &&& text.is_prefix_of(status_text(status))
            &&& !shown ==> status_text(status) == text
            &&& shown ==> status_text(status).len() == text.len() + 9
            &&& shown ==> forall|i: int|
                0 <= i < 4 ==> #[trigger] bytes[i] as char == status_text(status)[text.len() + 3 + i]
        }),
{
    reveal_strlit(" ('");
    reveal_strlit("')");
    let text = "OSStatus "@ + signed_decimal(status as int);
    let bytes = be32(status as int);
    assert(bytes.len() == 4);
    let all = status_text(status);
    assert(text =~= all.subrange(0, text.len() as int));
    if forall|i: int| 0 <= i < 4 ==> 0x20 <= #[trigger] bytes[i] <= 0x7E {
        assert(printable(bytes[0]) && printable(bytes[1]) && printable(bytes[2]) && printable(bytes[3]));
        let chars = seq![bytes[0] as char, bytes[1] as char, bytes[2] as char, bytes[3] as char];
        assert(all == text + " ('"@ + chars + "')"@);
        assert(" ('"@.len() == 3 && "')"@.len() == 2);
        assert forall|i: int| 0 <= i < 4 implies #[trigger] bytes[i] as char == all[text.len() + 3 + i] by {
            assert(all[text.len() + 3 + i] == chars[i]);
        }
    } else {
        let i = choose|i: int| 0 <= i < 4 && !(0x20 <= #[trigger] bytes[i] <= 0x7E);
        assert(!printable(bytes[i]));
        assert(i == 0 || i == 1 || i == 2 || i == 3);
    }
}

} // verus!
