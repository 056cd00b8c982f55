//! Camera server.

use crate::cli::realsense::{number_or, read_number};
use crate::text::{
    chars_of, decimal, decimal_of, first_line, has_prefix, has_text, joined2, lines, named,
    opt_text, parse_number, parsed, parsed_number_fits, replace_char, replaced, same, starts_with, string_of, texts,
};
use vstd::prelude::*;
use vstd::slice::slice_subrange;

verus! {

/// Where a camera is attached, from a list of its properties: the first line that begins with
/// `ID_PATH=` says it.
pub open spec fn usb_path(list: Seq<Seq<char>>) -> Option<Seq<char>>
    decreases list.len(),
{
    if list.len() == 0 {
        None
    } else if starts_with(list[0], "ID_PATH="@) {
        Some(list[0].skip(8))
    } else {
        usb_path(list.skip(1))
    }
}

/// Reads where a camera is attached from what `udevadm info --query=property` prints.
pub fn find_usb_path(properties: &str) -> (r: Option<String>)
    ensures
        opt_text(r) == usb_path(lines(properties@)),
{
    proof {
        reveal_strlit("ID_PATH=");
    }
    let chars = chars_of(properties);
    let mut at: usize = 0;
    assert(chars@.skip(0) =~= chars@);
    while at < chars.len()
        invariant
            at <= chars.len(),
            "ID_PATH="@.len() == 8,
            chars@ == properties@,
            usb_path(lines(properties@)) == usb_path(lines(chars@.skip(at as int))),
        decreases chars.len() - at,
    {
        let rest = slice_subrange(chars.as_slice(), at, chars.len());
        assert(rest@ =~= chars@.skip(at as int));
        let (line, next) = first_line(rest);
        let ghost list = lines(rest@);
        assert(list[0] == line@);
        assert(list.skip(1) =~= lines(rest@.skip(next as int)));
        if has_prefix(line, "ID_PATH=") {
            let path = slice_subrange(line, 8, line.len());
            assert(path@ =~= line@.skip(8));
            return Some(string_of(path));
        }
        assert(rest@.skip(next as int) =~= chars@.skip(at + next));
        at = at + next;
    }
    None
}

/// The name of the file that holds a camera's identity: it goes by the path of the USB port that the
/// camera is attached to, if that is known, else by the camera's index.
pub open spec fn key_name(index: u32, path: Option<Seq<char>>) -> Seq<char> {
    match path {
        Some(path) => ".xoq_camera_key_"@ + replaced(replaced(path, ':', '-'), '.', '_'),
        None => ".xoq_camera_key_idx"@ + decimal(index as nat),
    }
}

/// Create a stable key name for identity files.
pub fn make_key_name(index: u32, device: Option<&str>) -> (r: String)
    ensures
        r@ == key_name(
            index,
            match device {
                Some(p) => Some(p@),
                None => None,
            },
        ),
{
    match device {
        Some(path) => {
            let safe = replace_char(&replace_char(path, ':', '-'), '.', '_');
            joined2(".xoq_camera_key_", &safe)
        },
        None => joined2(".xoq_camera_key_idx", &decimal_of(index as u64)),
    }
}

/// What the command line says of all cameras.
#[derive(Debug)]
pub struct Args {
    pub indices: Vec<u32>,
    pub key_dir: String,
    pub width: u32,
    pub height: u32,
    pub fps: u32,
    pub quality: u8,
    pub bitrate: u32,
    pub use_h264: bool,
    /// The MoQ path; empty for the one that goes by the index.
    pub moq_path: Option<String>,
    pub relay: String,
    pub insecure: bool,
}

/// What the command line says of all cameras.
pub struct Choices {
    pub indices: Seq<u32>,
    pub key_dir: Seq<char>,
    pub width: u32,
    pub height: u32,
    pub fps: u32,
    pub quality: u8,
    pub bitrate: u32,
    pub use_h264: bool,
    pub moq_path: Option<Seq<char>>,
    pub relay: Seq<char>,
    pub insecure: bool,
}

impl View for Args {
    type V = Choices;

    open spec fn view(&self) -> Choices {
        Choices {
            indices: self.indices@,
            key_dir: self.key_dir@,
            width: self.width,
            height: self.height,
            fps: self.fps,
            quality: self.quality,
            bitrate: self.bitrate,
            use_h264: self.use_h264,
            moq_path: opt_text(self.moq_path),
            relay: self.relay@,
            insecure: self.insecure,
        }
    }
}

/// The choices before any argument is read.
pub open spec fn default_choices() -> Choices {
    Choices {
        indices: Seq::empty(),
        key_dir: "."@,
        width: 640,
        height: 480,
        fps: 30,
        quality: 80,
        bitrate: 2_000_000,
        use_h264: false,
        moq_path: None,
        relay: "https://cdn.moq.dev"@,
        insecure: false,
    }
}

/// Whether an option takes a value.
pub open spec fn takes_value(arg: Seq<char>) -> bool {
    arg == "--key-dir"@ || arg == "--width"@ || arg == "--height"@ || arg == "--fps"@ || arg
        == "--quality"@ || arg == "--bitrate"@ || arg == "--relay"@
}

/// Whether an argument behind `--moq` is its path: neither an option nor an index.
pub open spec fn is_moq_path(arg: Seq<char>) -> bool {
    !starts_with(arg, "--"@) && parsed(arg, u32::MAX as int) is None
}

impl Choices {
    /// The choices after an option with its value.
    pub open spec fn with_value(self, arg: Seq<char>, value: Seq<char>) -> Choices {
        if arg == "--key-dir"@ {
            Choices { key_dir: value, ..self }
        } else if arg == "--width"@ {
            Choices { width: number_or(value, 640), ..self }
        } else if arg == "--height"@ {
            Choices { height: number_or(value, 480), ..self }
        } else if arg == "--fps"@ {
            Choices { fps: number_or(value, 30), ..self }
        } else if arg == "--quality"@ {
            Choices {
                quality: match parsed(value, u8::MAX as int) {
                    Some(n) => n as u8,
                    None => 80,
                },
                ..self
            }
        } else if arg == "--bitrate"@ {
            Choices { bitrate: number_or(value, 2_000_000), ..self }
        } else {
            Choices { relay: value, ..self }
        }
    }

    /// The choices after an argument that is no option: a number is the index of a camera.
    pub open spec fn with_word(self, word: Seq<char>) -> Choices {
        match parsed(word, u32::MAX as int) {
            Some(n) => Choices { indices: self.indices.push(n as u32), ..self },
            None => self,
        }
    }

    /// The choices after the arguments from `i` on.
    pub open spec fn reading(self, args: Seq<Seq<char>>, i: int) -> Choices
        decreases args.len() - i,
    {
        if i < 0 || i >= args.len() {
            self
        } else if takes_value(args[i]) && i + 1 < args.len() {
            self.with_value(args[i], args[i + 1]).reading(args, i + 2)
        } else if args[i] == "--h264"@ || args[i] == "--nvenc"@ || args[i] == "--vtenc"@ {
            Choices { use_h264: true, ..self }.reading(args, i + 1)
        } else if args[i] == "--insecure"@ {
            Choices { insecure: true, ..self }.reading(args, i + 1)
        } else if args[i] == "--moq"@ {
            if i + 1 < args.len() && is_moq_path(args[i + 1]) {
                Choices { moq_path: Some(args[i + 1]), ..self }.reading(args, i + 2)
            } else {
                Choices { moq_path: Some(Seq::empty()), ..self }.reading(args, i + 1)
            }
        } else {
            self.with_word(args[i]).reading(args, i + 1)
        }
    }
}

fn value_option(arg: &str) -> (r: bool)
    ensures
        r == takes_value(arg@),
{
    same(arg, "--key-dir") || same(arg, "--width") || same(arg, "--height") || same(arg, "--fps")
        || same(arg, "--quality") || same(arg, "--bitrate") || same(arg, "--relay")
}

fn moq_path_follows(arg: &str) -> (r: bool)
    ensures
        r == is_moq_path(arg@),
{
    !has_prefix(&chars_of(arg), "--") && parse_number(arg, u32::MAX as u64).is_none()
}

impl Args {
    fn set(self, arg: &str, value: &str) -> (r: Self)
        ensures
            r@ == self@.with_value(arg@, value@),
    {
        let mut r = self;
        if same(arg, "--key-dir") {
            r.key_dir = value.to_owned();
        } else if same(arg, "--width") {
            r.width = read_number(value, 640);
        } else if same(arg, "--height") {
            r.height = read_number(value, 480);
        } else if same(arg, "--fps") {
            r.fps = read_number(value, 30);
        } else if same(arg, "--quality") {
            r.quality = match parse_number(value, u8::MAX as u64) {
                Some(n) => n as u8,
                None => 80,
            };
        } else if same(arg, "--bitrate") {
            r.bitrate = read_number(value, 2_000_000);
        } else {
            r.relay = value.to_owned();
        }
        r
    }

    fn word(self, word: &str) -> (r: Self)
        ensures
            r@ == self@.with_word(word@),
    {
        let mut r = self;
        if let Some(n) = parse_number(word, u32::MAX as u64) {
            r.indices.push(n as u32);
        }
        r
    }
}

/// What the command line asks for.
#[derive(Debug)]
pub enum Request {
    /// Show the usage.
    Usage,
    /// List the cameras.
    List,
    /// Serve these cameras.
    Serve(Args),
}

/// Reads the command line. Without arguments, or without the index of a camera, the usage is to
/// be shown.
pub fn parse_args(args: &[String]) -> (r: Request)
    ensures
        ({
            let all = texts(args@);
            let choices = default_choices().reading(all, 1);
            match r {
                Request::List => all.len() >= 2 && all.contains("--list"@),
                Request::Usage => all.len() < 2 || (!all.contains("--list"@) && choices.indices.len()
                    == 0),
                Request::Serve(a) => all.len() >= 2 && !all.contains("--list"@) && a@ == choices
                    && choices.indices.len() > 0,
            }
        }),
{
    if args.len() < 2 {
        return Request::Usage;
    }
    if has_text(args, "--list") {
        return Request::List;
    }
    let mut result = Args {
        indices: Vec::new(),
        key_dir: ".".to_owned(),
        width: 640,
        height: 480,
        fps: 30,
        quality: 80,
        bitrate: 2_000_000,
        use_h264: false,
        moq_path: None,
        relay: "https://cdn.moq.dev".to_owned(),
        insecure: false,
    };
    let ghost all = texts(args@);
    let ghost outcome = default_choices().reading(all, 1);
    let count: usize = args.len();
    let mut i: usize = 1;
    while i < count
        invariant
            1 <= i,
            count == args@.len(),
            all == texts(args@),
            result@.reading(all, i as int) == outcome,
        decreases count - i,
    {
        let arg = args[i].as_str();
        assert(arg@ == all[i as int]);
        let more = i < count - 1;
        let next: usize = if i >= count - 2 {
            count
        } else {
            i + 2
        };
        if more {
            assert(args@[i + 1]@ == all[i + 1]);
        }
        if more && value_option(arg) {
            result = result.set(arg, &args[i + 1]);
            i = next;
        } else if same(arg, "--h264") || same(arg, "--nvenc") || same(arg, "--vtenc") {
            result.use_h264 = true;
            i = i + 1;
        } else if same(arg, "--insecure") {
            result.insecure = true;
            i = i + 1;
        } else if same(arg, "--moq") {
            if more && moq_path_follows(&args[i + 1]) {
                result.moq_path = Some(args[i + 1].as_str().to_owned());
                i = next;
            } else {
                let path = String::new();
                assert(path@ =~= Seq::<char>::empty());
                result.moq_path = Some(path);
                i = i + 1;
            }
        } else {
            result = result.word(arg);
            i = i + 1;
        }
    }
    if result.indices.len() == 0 {
        Request::Usage
    } else {
        Request::Serve(result)
    }
}

impl Args {
    /// The name that a camera is shown by.
    pub fn camera_name(index: u32) -> (r: String)
        ensures
            r@ == "Camera "@ + decimal(index as nat),
    {
        joined2("Camera ", &decimal_of(index as u64))
    }

    /// The MoQ path of a camera, if MoQ is used.
    pub fn path_for(&self, index: u32) -> (r: Option<String>)
        ensures
            opt_text(r) == (match self@.moq_path {
                Some(path) => Some(
                    if path.len() == 0 {
                        "anon/camera-"@ + decimal(index as nat)
                    } else {
                        path
                    },
                ),
                None => None,
            }),
    {
        match &self.moq_path {
            Some(path) => {
                if chars_of(path).len() == 0 {
                    Some(joined2("anon/camera-", &decimal_of(index as u64)))
                } else {
                    Some(path.as_str().to_owned())
                }
            },
            None => None,
        }
    }
}

/// What a camera server sends, and how.
#[derive(Debug, Clone, Copy, PartialEq, Eq, Structural)]
pub enum Mode {
    /// H.264 in CMAF segments over a relay.
    MoqH264,
    /// JPEG over a relay.
    MoqJpeg,
    /// H.264 to each client.
    H264,
    /// JPEG to each client.
    Jpeg,
}

/// What a camera server sends: it goes by whether MoQ is used and whether H.264 is wanted.
pub fn mode(moq: bool, h264: bool) -> (r: Mode)
    ensures
        r == (match (moq, h264) {
            (true, true) => Mode::MoqH264,
            (true, false) => Mode::MoqJpeg,
            (false, true) => Mode::H264,
            (false, false) => Mode::Jpeg,
        }),
{
    if moq {
        if h264 {
            Mode::MoqH264
        } else {
            Mode::MoqJpeg
        }
    } else if h264 {
        Mode::H264
    } else {
        Mode::Jpeg
    }
}

/// The H.264 encoder of a build.
#[derive(Debug, Clone, Copy, PartialEq, Eq, Structural)]
pub enum H264Encoder {
    Nvenc,
    VideoToolbox,
    Absent,
}

/// The name of the H.264 encoder.
pub fn encoder_name(encoder: H264Encoder) -> (r: &'static str)
    ensures
        r@ == (match encoder {
            H264Encoder::Nvenc => "H.264 (NVENC)"@,
            H264Encoder::VideoToolbox => "H.264 (VideoToolbox)"@,
            H264Encoder::Absent => "H.264"@,
        }),
{
    match encoder {
        H264Encoder::Nvenc => "H.264 (NVENC)",
        H264Encoder::VideoToolbox => "H.264 (VideoToolbox)",
        H264Encoder::Absent => "H.264",
    }
}

/// What a camera server sends, in words.
pub fn encoding_name(mode: Mode, encoder: H264Encoder) -> (r: &'static str)
    ensures
        match mode {
            Mode::MoqH264 => r@ == "H.264 CMAF (MoQ relay)"@,
            Mode::MoqJpeg => r@ == "JPEG (MoQ relay)"@,
            Mode::H264 => r@ == (match encoder {
                H264Encoder::Nvenc => "H.264 (NVENC)"@,
                H264Encoder::VideoToolbox => "H.264 (VideoToolbox)"@,
                H264Encoder::Absent => "H.264"@,
            }),
            Mode::Jpeg => r@ == "JPEG"@,
        },
{
    match mode {
        Mode::MoqH264 => "H.264 CMAF (MoQ relay)",
        Mode::MoqJpeg => "JPEG (MoQ relay)",
        Mode::H264 => encoder_name(encoder),
        Mode::Jpeg => "JPEG",
    }
}

/// An option that is not named keeps the value that it had, a switch that was set stays set, and so do
/// the indices that were named.
pub proof fn unnamed_options_keep_their_values(c: Choices, args: Seq<Seq<char>>, i: int)
    requires
        0 <= i,
    ensures
        ({
            let r = c.reading(args, i);
            &&& !named(args, i, "--key-dir"@) ==> r.key_dir == c.key_dir
            &&& !named(args, i, "--width"@) ==> r.width == c.width
            &&& !named(args, i, "--height"@) ==> r.height == c.height
            &&& !named(args, i, "--fps"@) ==> r.fps == c.fps
            &&& !named(args, i, "--quality"@) ==> r.quality == c.quality
            &&& !named(args, i, "--bitrate"@) ==> r.bitrate == c.bitrate
            &&& !named(args, i, "--relay"@) ==> r.relay == c.relay
            &&& !named(args, i, "--moq"@) ==> r.moq_path == c.moq_path
            &&& !named(args, i, "--insecure"@) ==> r.insecure == c.insecure
            &&& !named(args, i, "--h264"@) && !named(args, i, "--nvenc"@) && !named(args, i, "--vtenc"@)
                ==> r.use_h264 == c.use_h264
            &&& c.insecure ==> r.insecure
            &&& c.use_h264 ==> r.use_h264
            &&& c.moq_path is Some ==> r.moq_path is Some
            &&& c.indices.len() <= r.indices.len()
            &&& forall|k: int| 0 <= k < c.indices.len() ==> #[trigger] r.indices[k] == c.indices[k]
        }),
    decreases args.len() - i,
{
    if i < args.len() {
        if takes_value(args[i]) && i + 1 < args.len() {
            unnamed_options_keep_their_values(c.with_value(args[i], args[i + 1]), args, i + 2);
        } else if args[i] == "--h264"@ || args[i] == "--nvenc"@ || args[i] == "--vtenc"@ {
            unnamed_options_keep_their_values(Choices { use_h264: true, ..c }, args, i + 1);
        } else if args[i] == "--insecure"@ {
            unnamed_options_keep_their_values(Choices { insecure: true, ..c }, args, i + 1);
        } else if args[i] == "--moq"@ {
            if i + 1 < args.len() && is_moq_path(args[i + 1]) {
                let next = Choices { moq_path: Some(args[i + 1]), ..c };
                unnamed_options_keep_their_values(next, args, i + 2);
            } else {
                let next = Choices { moq_path: Some(Seq::empty()), ..c };
                unnamed_options_keep_their_values(next, args, i + 1);
            }
        } else {
            unnamed_options_keep_their_values(c.with_word(args[i]), args, i + 1);
        }
    }
}

/// What stands behind an option is its value, where the option is not named again. Where a number is
/// wanted and none stands there, the option has the value that it has without being named.
pub proof fn last_value_counts(c: Choices, args: Seq<Seq<char>>, i: int)
    requires
        0 <= i,
        i + 1 < args.len(),
        !named(args, i + 2, args[i]),
    ensures
        ({
            let r = c.reading(args, i);
            let value = args[i + 1];
            &&& args[i] == "--key-dir"@ ==> r.key_dir == value
            &&& args[i] == "--width"@ ==> match parsed(value, u32::MAX as int) {
                Some(n) => r.width == n,
                None => r.width == default_choices().width,
            }
            &&& args[i] == "--height"@ ==> match parsed(value, u32::MAX as int) {
                Some(n) => r.height == n,
                None => r.height == default_choices().height,
            }
            &&& args[i] == "--fps"@ ==> match parsed(value, u32::MAX as int) {
                Some(n) => r.fps == n,
                None => r.fps == default_choices().fps,
            }
            &&& args[i] == "--quality"@ ==> match parsed(value, u8::MAX as int) {
                Some(n) => r.quality == n,
                None => r.quality == default_choices().quality,
            }
            &&& args[i] == "--bitrate"@ ==> match parsed(value, u32::MAX as int) {
                Some(n) => r.bitrate == n,
                None => r.bitrate == default_choices().bitrate,
            }
            &&& args[i] == "--relay"@ ==> r.relay == value
        }),
{
    options_differ();
    parsed_number_fits(args[i + 1], u32::MAX as int);
    parsed_number_fits(args[i + 1], u8::MAX as int);
    unnamed_options_keep_their_values(c.with_value(args[i], args[i + 1]), args, i + 2);
}

/// A switch is set once it is named. MoQ is used once `--moq` is named, with the path that follows
/// it; an option or an index that follows is no path.
pub proof fn switches_are_set(c: Choices, args: Seq<Seq<char>>, i: int)
    requires
        0 <= i < args.len(),
    ensures
        ({
            let r = c.reading(args, i);
            &&& args[i] == "--h264"@ || args[i] == "--nvenc"@ || args[i] == "--vtenc"@ ==> r.use_h264
            &&& args[i] == "--insecure"@ ==> r.insecure
            &&& args[i] == "--moq"@ ==> r.moq_path is Some
            &&& args[i] == "--moq"@ && !named(args, i + 1, "--moq"@) ==> r.moq_path == (if i + 1
                < args.len() && !starts_with(args[i + 1], seq!['-', '-']) && parsed(
                args[i + 1],
                u32::MAX as int,
            ) is None {
                Some(args[i + 1])
            } else {
                Some(Seq::empty())
            })
        }),
{
    options_differ();
    reveal_strlit("--");
    assert("--"@ =~= seq!['-', '-']);
    if args[i] == "--h264"@ || args[i] == "--nvenc"@ || args[i] == "--vtenc"@ {
        unnamed_options_keep_their_values(Choices { use_h264: true, ..c }, args, i + 1);
    } else if args[i] == "--insecure"@ {
        unnamed_options_keep_their_values(Choices { insecure: true, ..c }, args, i + 1);
    } else if args[i] == "--moq"@ {
        if i + 1 < args.len() && is_moq_path(args[i + 1]) {
            let next = Choices { moq_path: Some(args[i + 1]), ..c };
            unnamed_options_keep_their_values(next, args, i + 2);
        } else {
            let next = Choices { moq_path: Some(Seq::empty()), ..c };
            unnamed_options_keep_their_values(next, args, i + 1);
        }
    }
}

/// A number that stands alone is the index of the next camera.
pub proof fn numbers_are_indices(c: Choices, args: Seq<Seq<char>>, i: int)
    requires
        0 <= i < args.len(),
        parsed(args[i], u32::MAX as int) is Some,
    ensures
        c.reading(args, i).indices.len() > c.indices.len(),
        c.reading(args, i).indices[c.indices.len() as int] == parsed(args[i], u32::MAX as int)->0,
{
    options_differ();
    parsed_number_fits(args[i], u32::MAX as int);
    unnamed_options_keep_their_values(c.with_word(args[i]), args, i + 1);
    assert(c.with_word(args[i]).indices[c.indices.len() as int] == parsed(args[i], u32::MAX as int)->0);
}

proof fn options_differ()
    ensures
        "--key-dir"@ != "--width"@,
        "--key-dir"@ != "--height"@,
        "--key-dir"@ != "--fps"@,
        "--key-dir"@ != "--quality"@,
        "--key-dir"@ != "--bitrate"@,
        "--key-dir"@ != "--relay"@,
        "--key-dir"@ != "--h264"@,
        "--key-dir"@ != "--nvenc"@,
        "--key-dir"@ != "--vtenc"@,
        "--key-dir"@ != "--insecure"@,
        "--key-dir"@ != "--moq"@,
        "--width"@ != "--height"@,
        "--width"@ != "--fps"@,
        "--width"@ != "--quality"@,
        "--width"@ != "--bitrate"@,
        "--width"@ != "--relay"@,
        "--width"@ != "--h264"@,
        "--width"@ != "--nvenc"@,
        "--width"@ != "--vtenc"@,
        "--width"@ != "--insecure"@,
        "--width"@ != "--moq"@,
        "--height"@ != "--fps"@,
        "--height"@ != "--quality"@,
        "--height"@ != "--bitrate"@,
        "--height"@ != "--relay"@,
        "--height"@ != "--h264"@,
        "--height"@ != "--nvenc"@,
        "--height"@ != "--vtenc"@,
        "--height"@ != "--insecure"@,
        "--height"@ != "--moq"@,
        "--fps"@ != "--quality"@,
        "--fps"@ != "--bitrate"@,
        "--fps"@ != "--relay"@,
        "--fps"@ != "--h264"@,
        "--fps"@ != "--nvenc"@,
        "--fps"@ != "--vtenc"@,
        "--fps"@ != "--insecure"@,
        "--fps"@ != "--moq"@,
        "--quality"@ != "--bitrate"@,
        "--quality"@ != "--relay"@,
        "--quality"@ != "--h264"@,
        "--quality"@ != "--nvenc"@,
        "--quality"@ != "--vtenc"@,
        "--quality"@ != "--insecure"@,
        "--quality"@ != "--moq"@,
        "--bitrate"@ != "--relay"@,
        "--bitrate"@ != "--h264"@,
        "--bitrate"@ != "--nvenc"@,
        "--bitrate"@ != "--vtenc"@,
        "--bitrate"@ != "--insecure"@,
        "--bitrate"@ != "--moq"@,
        "--relay"@ != "--h264"@,
        "--relay"@ != "--nvenc"@,
        "--relay"@ != "--vtenc"@,
        "--relay"@ != "--insecure"@,
        "--relay"@ != "--moq"@,
        "--h264"@ != "--nvenc"@,
        "--h264"@ != "--vtenc"@,
        "--h264"@ != "--insecure"@,
        "--h264"@ != "--moq"@,
        "--nvenc"@ != "--vtenc"@,
        "--nvenc"@ != "--insecure"@,
        "--nvenc"@ != "--moq"@,
        "--vtenc"@ != "--insecure"@,
        "--vtenc"@ != "--moq"@,
        "--insecure"@ != "--moq"@,
        "--key-dir"@[0] == '-',
        "--width"@[0] == '-',
        "--height"@[0] == '-',
        "--fps"@[0] == '-',
        "--quality"@[0] == '-',
        "--bitrate"@[0] == '-',
        "--relay"@[0] == '-',
        "--h264"@[0] == '-',
        "--nvenc"@[0] == '-',
        "--vtenc"@[0] == '-',
        "--insecure"@[0] == '-',
        "--moq"@[0] == '-',
{
    reveal_strlit("--key-dir");
    reveal_strlit("--width");
    reveal_strlit("--height");
    reveal_strlit("--fps");
    reveal_strlit("--quality");
    reveal_strlit("--bitrate");
    reveal_strlit("--relay");
    reveal_strlit("--h264");
    reveal_strlit("--nvenc");
    reveal_strlit("--vtenc");
    reveal_strlit("--insecure");
    reveal_strlit("--moq");
    assert("--key-dir"@.len() == 9);
    assert("--width"@.len() == 7);
    assert("--height"@.len() == 8);
    assert("--fps"@.len() == 5);
    assert("--quality"@.len() == 9);
    assert("--bitrate"@.len() == 9);
    assert("--relay"@.len() == 7);
    assert("--h264"@.len() == 6);
    assert("--nvenc"@.len() == 7);
    assert("--vtenc"@.len() == 7);
    assert("--insecure"@.len() == 10);
    assert("--moq"@.len() == 5);
    assert("--key-dir"@[2] != "--quality"@[2]);
    assert("--key-dir"@[2] != "--bitrate"@[2]);
    assert("--width"@[2] != "--relay"@[2]);
    assert("--width"@[2] != "--nvenc"@[2]);
    assert("--width"@[2] != "--vtenc"@[2]);
    assert("--fps"@[2] != "--moq"@[2]);
    assert("--quality"@[2] != "--bitrate"@[2]);
    assert("--relay"@[2] != "--nvenc"@[2]);
    assert("--relay"@[2] != "--vtenc"@[2]);
    assert("--nvenc"@[2] != "--vtenc"@[2]);
}

/// Whether line `i` is the first that begins with `ID_PATH=`, and `path` stands behind it.
pub open spec fn path_line(list: Seq<Seq<char>>, i: int, path: Seq<char>) -> bool {
    &&& 0 <= i < list.len()
    &&& list[i] == "ID_PATH="@ + path
    &&& forall|j: int| 0 <= j < i ==> !starts_with(#[trigger] list[j], "ID_PATH="@)
}

/// The path that is found is that of the first line that names one.
pub proof fn first_path_counts(list: Seq<Seq<char>>)
    ensures
        usb_path(list) is Some ==> exists|i: int| path_line(list, i, usb_path(list)->0),
        usb_path(list) is None ==> forall|j: int|
            0 <= j < list.len() ==> !starts_with(#[trigger] list[j], "ID_PATH="@),
    decreases list.len(),
{
    reveal_strlit("ID_PATH=");
    assert("ID_PATH="@.len() == 8);
    if list.len() > 0 {
        if starts_with(list[0], "ID_PATH="@) {
            let path = list[0].skip(8);
            assert(list[0] =~= "ID_PATH="@ + path);
            assert(usb_path(list) == Some(path));
            assert(path_line(list, 0, path));
            assert(path_line(list, 0, usb_path(list)->0));
        } else {
            let rest = list.skip(1);
            first_path_counts(rest);
            if usb_path(rest) is Some {
                let path = usb_path(rest)->0;
                let i = choose|i: int| path_line(rest, i, path);
                assert forall|j: int| 0 <= j < i + 1 implies !starts_with(
                    #[trigger] list[j],
                    "ID_PATH="@,
                ) by {
                    if j > 0 {
                        assert(list[j] == rest[j - 1]);
                    }
                }
                assert(usb_path(list) == Some(path));
                assert(path_line(list, i + 1, path));
                assert(path_line(list, i + 1, usb_path(list)->0));
            } else {
                assert forall|j: int| 0 <= j < list.len() implies !starts_with(
                    #[trigger] list[j],
                    "ID_PATH="@,
                ) by {
                    if j > 0 {
                        assert(list[j] == rest[j - 1]);
                    }
                }
            }
        }
    }
}

} // verus!
