//! Audio server.

use crate::audio::SampleFormat;
use crate::audio_server::{AudioServerBuilder, Transport};
use crate::text::{has_text, named, opt_text, parse_number, parsed, parsed_number_fits, same, texts};
use vstd::prelude::*;

verus! {

/// Why the command line could not be read.
#[derive(Debug)]
pub enum ArgsError {
    /// A value that must be a number is none, or does not fit.
    InvalidNumber { option: String, value: String },
    /// Unknown sample format.
    UnknownFormat { format: String },
}

/// What the command line asks for.
#[derive(Debug)]
pub enum Request {
    /// List the devices.
    List,
    /// Show the usage.
    Help,
    /// Run a server.
    Serve(AudioServerBuilder),
}

/// Where audio goes.
pub enum Link {
    Iroh(Option<Seq<char>>),
    Moq(Seq<char>, Option<Seq<char>>),
}

/// What the command line says of the server.
pub struct Choices {
    pub input_device: Option<usize>,
    pub output_device: Option<usize>,
    pub sample_rate: u32,
    pub channels: u16,
    pub sample_format: SampleFormat,
    pub chunk_duration_ms: u32,
    pub link: Link,
    pub use_vpio: bool,
}

/// What a transport is.
pub open spec fn link_of(t: Transport) -> Link {
    match t {
        Transport::Iroh { identity_path } => Link::Iroh(opt_text(identity_path)),
        Transport::Moq { path, relay_url } => Link::Moq(path@, opt_text(relay_url)),
    }
}

/// What a builder says of the server.
pub open spec fn choices_of(b: AudioServerBuilder) -> Choices {
    Choices {
        input_device: b.input_device,
        output_device: b.output_device,
        sample_rate: b.sample_rate,
        channels: b.channels,
        sample_format: b.sample_format,
        chunk_duration_ms: b.chunk_duration_ms,
        link: link_of(b.transport),
        use_vpio: b.use_vpio,
    }
}

/// What reading the command line leads to.
pub enum Outcome {
    Help,
    Serve(Choices),
    InvalidNumber(Seq<char>, Seq<char>),
    UnknownFormat(Seq<char>),
}

/// The choices before any argument is read: the identity is kept in a file.
pub open spec fn default_choices() -> Choices {
    Choices {
        input_device: None,
        output_device: None,
        sample_rate: 48000,
        channels: 1,
        sample_format: SampleFormat::I16,
        chunk_duration_ms: 20,
        link: Link::Iroh(Some(".xoq_audio_server_key"@)),
        use_vpio: true,
    }
}

/// The largest value of an option that takes a number, if it is one.
pub open spec fn number_limit(arg: Seq<char>) -> Option<int> {
    if arg == "--input"@ || arg == "--output"@ {
        Some(usize::MAX as int)
    } else if arg == "--sample-rate"@ {
        Some(u32::MAX as int)
    } else if arg == "--channels"@ {
        Some(u16::MAX as int)
    } else {
        None
    }
}

impl Choices {
    /// The choices after an option that takes a number.
    pub open spec fn with_number(self, arg: Seq<char>, n: int) -> Choices {
        if arg == "--input"@ {
            Choices { input_device: Some(n as usize), ..self }
        } else if arg == "--output"@ {
            Choices { output_device: Some(n as usize), ..self }
        } else if arg == "--sample-rate"@ {
            Choices { sample_rate: n as u32, ..self }
        } else {
            Choices { channels: n as u16, ..self }
        }
    }

    /// What the arguments from `i` on lead to. `vpio` says whether the platform has voice
    /// processing.
    pub open spec fn reading(self, args: Seq<Seq<char>>, i: int, vpio: bool) -> Outcome
        decreases args.len() - i,
    {
        if i < 0 || i >= args.len() {
            Outcome::Serve(self)
        } else if number_limit(args[i]) is Some && i + 1 < args.len() {
            match parsed(args[i + 1], number_limit(args[i])->0) {
                Some(n) => self.with_number(args[i], n).reading(args, i + 2, vpio),
                None => Outcome::InvalidNumber(args[i], args[i + 1]),
            }
        } else if args[i] == "--format"@ && i + 1 < args.len() {
            if args[i + 1] == "i16"@ {
                Choices { sample_format: SampleFormat::I16, ..self }.reading(args, i + 2, vpio)
            } else if args[i + 1] == "f32"@ {
                Choices { sample_format: SampleFormat::F32, ..self }.reading(args, i + 2, vpio)
            } else {
                Outcome::UnknownFormat(args[i + 1])
            }
        } else if args[i] == "--moq"@ && i + 1 < args.len() {
            Choices { link: Link::Moq(args[i + 1], None), ..self }.reading(args, i + 2, vpio)
        } else if args[i] == "--identity"@ && i + 1 < args.len() {
            Choices { link: Link::Iroh(Some(args[i + 1])), ..self }.reading(args, i + 2, vpio)
        } else if vpio && args[i] == "--no-vpio"@ {
            Choices { use_vpio: false, ..self }.reading(args, i + 1, vpio)
        } else if args[i] == "--help"@ || args[i] == "-h"@ {
            Outcome::Help
        } else {
            self.reading(args, i + 1, vpio)
        }
    }
}

fn limit_of(arg: &str) -> (r: Option<u64>)
    ensures
        match r {
            Some(n) => number_limit(arg@) == Some(n as int),
            None => number_limit(arg@) is None,
        },
{
    if same(arg, "--input") || same(arg, "--output") {
        Some(usize::MAX as u64)
    } else if same(arg, "--sample-rate") {
        Some(u32::MAX as u64)
    } else if same(arg, "--channels") {
        Some(u16::MAX as u64)
    } else {
        None
    }
}

fn set_number(builder: AudioServerBuilder, arg: &str, n: u64) -> (r: AudioServerBuilder)
    requires
        number_limit(arg@) matches Some(max) && n <= max,
    ensures
        choices_of(r) == choices_of(builder).with_number(arg@, n as int),
{
    if same(arg, "--input") {
        builder.input_device(n as usize)
    } else if same(arg, "--output") {
        builder.output_device(n as usize)
    } else if same(arg, "--sample-rate") {
        builder.sample_rate(n as u32)
    } else {
        builder.channels(n as u16)
    }
}

/// Reads the command line; `vpio` says whether the platform has voice processing.
pub fn parse_args(args: &[String], vpio: bool) -> (r: Result<Request, ArgsError>)
    ensures
        ({
            let all = texts(args@);
            let outcome = default_choices().reading(all, 1, vpio);
            if all.contains("--list"@) {
                r matches Ok(Request::List)
            } else {
                match outcome {
                    Outcome::Help => r matches Ok(Request::Help),
                    Outcome::Serve(c) => r matches Ok(Request::Serve(b)) && choices_of(b) == c,
                    Outcome::InvalidNumber(o, v) => r matches Err(
                        ArgsError::InvalidNumber { option, value },
                    ) && option@ == o && value@ == v,
                    Outcome::UnknownFormat(f) => r matches Err(ArgsError::UnknownFormat { format })
                        && format@ == f,
                }
            }
        }),
{
    if has_text(args, "--list") {
        return Ok(Request::List);
    }
    let mut builder = AudioServerBuilder::new().iroh_with_identity(".xoq_audio_server_key");
    let ghost all = texts(args@);
    let ghost outcome = default_choices().reading(all, 1, vpio);
    let count: usize = args.len();
    let mut i: usize = 1;
    assert(choices_of(builder) == default_choices());
    while i < count
        invariant
            1 <= i,
            count == args@.len(),
            all == texts(args@),
            !all.contains("--list"@),
            outcome == default_choices().reading(all, 1, vpio),
            choices_of(builder).reading(all, i as int, vpio) == outcome,
        decreases count - i,
    {
        let arg = args[i].as_str();
        assert(arg@ == all[i as int]);
        let more = i < count - 1;
        let next: usize = if i >= count - 2 {
            count
        } else {
            i + 2
        };
        if more {
            assert(args@[i + 1]@ == all[i + 1]);
        }
        let limit = limit_of(arg);
        if more && limit.is_some() {
            let value = args[i + 1].as_str();
            match limit {
                Some(max) => match parse_number(value, max) {
                    Some(n) => {
                        builder = set_number(builder, arg, n);
                    },
                    None => {
                        return Err(
                            ArgsError::InvalidNumber {
                                option: arg.to_owned(),
                                value: value.to_owned(),
                            },
                        );
                    },
                },
                None => {},
            }
            i = next;
        } else if more && same(arg, "--format") {
            let value = args[i + 1].as_str();
            if same(value, "i16") {
                builder = builder.sample_format(SampleFormat::I16);
            } else if same(value, "f32") {
                builder = builder.sample_format(SampleFormat::F32);
            } else {
                return Err(ArgsError::UnknownFormat { format: value.to_owned() });
            }
            i = next;
        } else if more && same(arg, "--moq") {
            builder = builder.moq(&args[i + 1]);
            i = next;
        } else if more && same(arg, "--identity") {
            builder = builder.iroh_with_identity(&args[i + 1]);
            i = next;
        } else if vpio && same(arg, "--no-vpio") {
            builder = builder.use_vpio(false);
            i = i + 1;
        } else if same(arg, "--help") || same(arg, "-h") {
            return Ok(Request::Help);
        } else {
            i = i + 1;
        }
    }
    Ok(Request::Serve(builder))
}

/// An option that is not named keeps the value that it had, and a switch that was turned off stays
/// off.
pub proof fn unnamed_options_keep_their_values(c: Choices, args: Seq<Seq<char>>, i: int, vpio: bool)
    requires
        0 <= i,
    ensures
        c.reading(args, i, vpio) matches Outcome::Serve(r) ==> {
            &&& !named(args, i, "--input"@) ==> r.input_device == c.input_device
            &&& !named(args, i, "--output"@) ==> r.output_device == c.output_device
            &&& !named(args, i, "--sample-rate"@) ==> r.sample_rate == c.sample_rate
            &&& !named(args, i, "--channels"@) ==> r.channels == c.channels
            &&& !named(args, i, "--format"@) ==> r.sample_format == c.sample_format
            &&& !named(args, i, "--moq"@) && !named(args, i, "--identity"@) ==> r.link == c.link
            &&& !vpio || !named(args, i, "--no-vpio"@) ==> r.use_vpio == c.use_vpio
            &&& !c.use_vpio ==> !r.use_vpio
            &&& r.chunk_duration_ms == c.chunk_duration_ms
        },
    decreases args.len() - i,
{
    if i < args.len() {
        if number_limit(args[i]) is Some && i + 1 < args.len() {
            if parsed(args[i + 1], number_limit(args[i])->0) is Some {
                let n = parsed(args[i + 1], number_limit(args[i])->0)->0;
                unnamed_options_keep_their_values(c.with_number(args[i], n), args, i + 2, vpio);
            }
        } else if args[i] == "--format"@ && i + 1 < args.len() {
            let format = if args[i + 1] == "i16"@ {
                SampleFormat::I16
            } else {
                SampleFormat::F32
            };
            unnamed_options_keep_their_values(
                Choices { sample_format: format, ..c },
                args,
                i + 2,
                vpio,
            );
        } else if args[i] == "--moq"@ && i + 1 < args.len() {
            let next = Choices { link: Link::Moq(args[i + 1], None), ..c };
            unnamed_options_keep_their_values(next, args, i + 2, vpio);
        } else if args[i] == "--identity"@ && i + 1 < args.len() {
            let next = Choices { link: Link::Iroh(Some(args[i + 1])), ..c };
            unnamed_options_keep_their_values(next, args, i + 2, vpio);
        } else if vpio && args[i] == "--no-vpio"@ {
            unnamed_options_keep_their_values(Choices { use_vpio: false, ..c }, args, i + 1, vpio);
        } else {
            unnamed_options_keep_their_values(c, args, i + 1, vpio);
        }
    }
}

/// What stands behind an option is its value, where nothing behind it names the option again.
pub proof fn last_value_counts(c: Choices, args: Seq<Seq<char>>, i: int, vpio: bool)
    requires
        0 <= i,
        i + 1 < args.len(),
        !named(args, i + 2, args[i]),
        c.reading(args, i, vpio) is Serve,
    ensures
        ({
            let r = c.reading(args, i, vpio)->Serve_0;
            let value = args[i + 1];
            &&& args[i] == "--input"@ ==> r.input_device is Some && parsed(value, usize::MAX as int)
                == Some(r.input_device->0 as int)
            &&& args[i] == "--output"@ ==> r.output_device is Some && parsed(value, usize::MAX as int)
                == Some(r.output_device->0 as int)
            &&& args[i] == "--sample-rate"@ ==> parsed(value, u32::MAX as int) == Some(
                r.sample_rate as int,
            )
            &&& args[i] == "--channels"@ ==> parsed(value, u16::MAX as int) == Some(r.channels as int)
            &&& args[i] == "--format"@ ==> match r.sample_format {
                SampleFormat::I16 => value == "i16"@,
                SampleFormat::F32 => value == "f32"@,
            }
            &&& args[i] == "--moq"@ && !named(args, i + 2, "--identity"@) ==> r.link == Link::Moq(value, None)
            &&& args[i] == "--identity"@ && !named(args, i + 2, "--moq"@) ==> r.link == Link::Iroh(
                Some(value),
            )
        }),
{
    options_differ();
    parsed_number_fits(args[i + 1], usize::MAX as int);
    parsed_number_fits(args[i + 1], u32::MAX as int);
    parsed_number_fits(args[i + 1], u16::MAX as int);
    if number_limit(args[i]) is Some {
        let n = parsed(args[i + 1], number_limit(args[i])->0)->0;
        unnamed_options_keep_their_values(c.with_number(args[i], n), args, i + 2, vpio);
    } else if args[i] == "--format"@ {
        let format = if args[i + 1] == "i16"@ {
            SampleFormat::I16
        } else {
            SampleFormat::F32
        };
        unnamed_options_keep_their_values(Choices { sample_format: format, ..c }, args, i + 2, vpio);
    } else if args[i] == "--moq"@ {
        let next = Choices { link: Link::Moq(args[i + 1], None), ..c };
        unnamed_options_keep_their_values(next, args, i + 2, vpio);
    } else if args[i] == "--identity"@ {
        let next = Choices { link: Link::Iroh(Some(args[i + 1])), ..c };
        unnamed_options_keep_their_values(next, args, i + 2, vpio);
    }
}

/// Voice processing is turned off once it is refused, on a platform that has it, and whoever asks
/// for help gets it.
pub proof fn switches_are_set(c: Choices, args: Seq<Seq<char>>, i: int, vpio: bool)
    requires
        0 <= i < args.len(),
    ensures
        args[i] == "--help"@ || args[i] == "-h"@ ==> c.reading(args, i, vpio) is Help,
        vpio && args[i] == "--no-vpio"@ && c.reading(args, i, vpio) is Serve ==> !c.reading(
            args,
            i,
            vpio,
        )->Serve_0.use_vpio,
{
    options_differ();
    unnamed_options_keep_their_values(Choices { use_vpio: false, ..c }, args, i + 1, vpio);
}

proof fn options_differ()
    ensures
        "--input"@ != "--output"@,
        "--input"@ != "--sample-rate"@,
        "--input"@ != "--channels"@,
        "--input"@ != "--format"@,
        "--input"@ != "--moq"@,
        "--input"@ != "--identity"@,
        "--input"@ != "--no-vpio"@,
        "--input"@ != "--help"@,
        "--input"@ != "-h"@,
        "--output"@ != "--sample-rate"@,
        "--output"@ != "--channels"@,
        "--output"@ != "--format"@,
        "--output"@ != "--moq"@,
        "--output"@ != "--identity"@,
        "--output"@ != "--no-vpio"@,
        "--output"@ != "--help"@,
        "--output"@ != "-h"@,
        "--sample-rate"@ != "--channels"@,
        "--sample-rate"@ != "--format"@,
        "--sample-rate"@ != "--moq"@,
        "--sample-rate"@ != "--identity"@,
        "--sample-rate"@ != "--no-vpio"@,
        "--sample-rate"@ != "--help"@,
        "--sample-rate"@ != "-h"@,
        "--channels"@ != "--format"@,
        "--channels"@ != "--moq"@,
        "--channels"@ != "--identity"@,
        "--channels"@ != "--no-vpio"@,
        "--channels"@ != "--help"@,
        "--channels"@ != "-h"@,
        "--format"@ != "--moq"@,
        "--format"@ != "--identity"@,
        "--format"@ != "--no-vpio"@,
        "--format"@ != "--help"@,
        "--format"@ != "-h"@,
        "--moq"@ != "--identity"@,
        "--moq"@ != "--no-vpio"@,
        "--moq"@ != "--help"@,
        "--moq"@ != "-h"@,
        "--identity"@ != "--no-vpio"@,
        "--identity"@ != "--help"@,
        "--identity"@ != "-h"@,
        "--no-vpio"@ != "--help"@,
        "--no-vpio"@ != "-h"@,
        "--help"@ != "-h"@,
{
    reveal_strlit("--input");
    reveal_strlit("--output");
    reveal_strlit("--sample-rate");
    reveal_strlit("--channels");
    reveal_strlit("--format");
    reveal_strlit("--moq");
    reveal_strlit("--identity");
    reveal_strlit("--no-vpio");
    reveal_strlit("--help");
    reveal_strlit("-h");
    assert("--input"@.len() == 7);
    assert("--output"@.len() == 8);
    assert("--sample-rate"@.len() == 13);
    assert("--channels"@.len() == 10);
    assert("--format"@.len() == 8);
    assert("--moq"@.len() == 5);
    assert("--identity"@.len() == 10);
    assert("--no-vpio"@.len() == 9);
    assert("--help"@.len() == 6);
    assert("-h"@.len() == 2);
    assert("--output"@[2] != "--format"@[2]);
    assert("--channels"@[2] != "--identity"@[2]);
}

} // verus!
