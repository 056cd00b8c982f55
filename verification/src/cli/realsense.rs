//! Depth camera server.

use crate::text::{named, opt_text, parse_number, parsed, parsed_number_fits, same, texts};
use vstd::prelude::*;

verus! {

/// What the command line says.
#[derive(Debug)]
pub struct Args {
    pub relay: String,
    pub path: String,
    pub serial: Option<String>,
    pub width: u32,
    pub height: u32,
    pub fps: u32,
    pub color_bitrate: u32,
    pub depth_bitrate: u32,
    pub insecure: bool,
}

/// What the command line says.
pub struct Choices {
    pub relay: Seq<char>,
    pub path: Seq<char>,
    pub serial: Option<Seq<char>>,
    pub width: u32,
    pub height: u32,
    pub fps: u32,
    pub color_bitrate: u32,
    pub depth_bitrate: u32,
    pub insecure: bool,
}

impl View for Args {
    type V = Choices;

    open spec fn view(&self) -> Choices {
        Choices {
            relay: self.relay@,
            path: self.path@,
            serial: opt_text(self.serial),
            width: self.width,
            height: self.height,
            fps: self.fps,
            color_bitrate: self.color_bitrate,
            depth_bitrate: self.depth_bitrate,
            insecure: self.insecure,
        }
    }
}

/// The choices before any argument is read.
pub open spec fn default_choices() -> Choices {
    Choices {
        relay: "https://cdn.moq.dev"@,
        path: "anon/realsense"@,
        serial: None,
        width: 640,
        height: 480,
        fps: 30,
        color_bitrate: 4_000_000,
        depth_bitrate: 4_000_000,
        insecure: false,
    }
}

/// Whether an option takes a value.
pub open spec fn takes_value(arg: Seq<char>) -> bool {
    arg == "--relay"@ || arg == "--path"@ || arg == "--serial"@ || arg == "--width"@ || arg
        == "--height"@ || arg == "--fps"@ || arg == "--bitrate"@ || arg == "--depth-bitrate"@
}

/// The number that `s` writes, or a default where it writes none that fits.
pub open spec fn number_or(s: Seq<char>, default: u32) -> u32 {
    match parsed(s, u32::MAX as int) {
        Some(n) => n as u32,
        None => default,
    }
}

/// Reads a number, with a default where there is none that fits.
pub fn read_number(s: &str, default: u32) -> (r: u32)
    ensures
        r == number_or(s@, default),
{
    match parse_number(s, u32::MAX as u64) {
        Some(n) => n as u32,
        None => default,
    }
}

impl Choices {
    /// The choices after an option with its value. A relay of one's own is not verified.
    pub open spec fn with_value(self, arg: Seq<char>, value: Seq<char>) -> Choices {
        if arg == "--relay"@ {
            Choices { relay: value, insecure: true, ..self }
        } else if arg == "--path"@ {
            Choices { path: value, ..self }
        } else if arg == "--serial"@ {
            Choices { serial: Some(value), ..self }
        } else if arg == "--width"@ {
            Choices { width: number_or(value, 640), ..self }
        } else if arg == "--height"@ {
            Choices { height: number_or(value, 480), ..self }
        } else if arg == "--fps"@ {
            Choices { fps: number_or(value, 30), ..self }
        } else if arg == "--bitrate"@ {
            Choices { color_bitrate: number_or(value, 2_000_000), ..self }
        } else {
            Choices { depth_bitrate: number_or(value, 1_000_000), ..self }
        }
    }

    /// The choices after the arguments from `i` on; `None` where help is asked for.
    pub open spec fn reading(self, args: Seq<Seq<char>>, i: int) -> Option<Choices>
        decreases args.len() - i,
    {
        if i < 0 || i >= args.len() {
            Some(self)
        } else if takes_value(args[i]) && i + 1 < args.len() {
            self.with_value(args[i], args[i + 1]).reading(args, i + 2)
        } else if args[i] == "--insecure"@ {
            Choices { insecure: true, ..self }.reading(args, i + 1)
        } else if args[i] == "--help"@ || args[i] == "-h"@ {
            None
        } else {
            self.reading(args, i + 1)
        }
    }
}

fn value_option(arg: &str) -> (r: bool)
    ensures
        r == takes_value(arg@),
{
    same(arg, "--relay") || same(arg, "--path") || same(arg, "--serial") || same(arg, "--width") || same(
        arg,
        "--height",
    ) || same(arg, "--fps") || same(arg, "--bitrate") || same(arg, "--depth-bitrate")
}

impl Args {
    fn set(self, arg: &str, value: &str) -> (r: Self)
        ensures
            r@ == self@.with_value(arg@, value@),
    {
        let mut r = self;
        if same(arg, "--relay") {
            r.relay = value.to_owned();
            r.insecure = true;
        } else if same(arg, "--path") {
            r.path = value.to_owned();
        } else if same(arg, "--serial") {
            r.serial = Some(value.to_owned());
        } else if same(arg, "--width") {
            r.width = read_number(value, 640);
        } else if same(arg, "--height") {
            r.height = read_number(value, 480);
        } else if same(arg, "--fps") {
            r.fps = read_number(value, 30);
        } else if same(arg, "--bitrate") {
            r.color_bitrate = read_number(value, 2_000_000);
        } else {
            r.depth_bitrate = read_number(value, 1_000_000);
        }
        r
    }
}

/// Reads the command line. `None` asks for help.
pub fn parse_args(args: &[String]) -> (r: Option<Args>)
    ensures
        match r {
            Some(a) => default_choices().reading(texts(args@), 1) == Some(a@),
            None => default_choices().reading(texts(args@), 1) is None,
        },
{
    let mut result = Args {
        relay: "https://cdn.moq.dev".to_owned(),
        path: "anon/realsense".to_owned(),
        serial: None,
        width: 640,
        height: 480,
        fps: 30,
        color_bitrate: 4_000_000,
        depth_bitrate: 4_000_000,
        insecure: false,
    };
    let ghost all = texts(args@);
    let ghost outcome = default_choices().reading(all, 1);
    let count: usize = args.len();
    let mut i: usize = 1;
    while i < count
        invariant
            1 <= i,
            count == args@.len(),
            all == texts(args@),
            outcome == default_choices().reading(all, 1),
            result@.reading(all, i as int) == outcome,
        decreases count - i,
    {
        let arg = args[i].as_str();
        assert(arg@ == all[i as int]);
        if i < count - 1 && value_option(arg) {
            assert(args@[i + 1]@ == all[i + 1]);
            result = result.set(arg, &args[i + 1]);
            i = if i == count - 2 {
                count
            } else {
                i + 2
            };
        } else if same(arg, "--insecure") {
            result.insecure = true;
            i = i + 1;
        } else if same(arg, "--help") || same(arg, "-h") {
            return None;
        } else {
            i = i + 1;
        }
    }
    Some(result)
}

/// An option that is not named keeps the value that it had, and a switch that was set stays set. Only
/// a question for help leads to no choices.
pub proof fn unnamed_options_keep_their_values(c: Choices, args: Seq<Seq<char>>, i: int)
    requires
        0 <= i,
    ensures
        !named(args, i, "--help"@) && !named(args, i, "-h"@) ==> c.reading(args, i) is Some,
        c.reading(args, i) matches Some(r) ==> {
            &&& !named(args, i, "--relay"@) ==> r.relay == c.relay
            &&& !named(args, i, "--path"@) ==> r.path == c.path
            &&& !named(args, i, "--serial"@) ==> r.serial == c.serial
            &&& !named(args, i, "--width"@) ==> r.width == c.width
            &&& !named(args, i, "--height"@) ==> r.height == c.height
            &&& !named(args, i, "--fps"@) ==> r.fps == c.fps
            &&& !named(args, i, "--bitrate"@) ==> r.color_bitrate == c.color_bitrate
            &&& !named(args, i, "--depth-bitrate"@) ==> r.depth_bitrate == c.depth_bitrate
            &&& !named(args, i, "--insecure"@) && !named(args, i, "--relay"@) ==> r.insecure == c.insecure
            &&& c.insecure == true ==> r.insecure == true
        },
    decreases args.len() - i,
{
    if i < args.len() {
        if takes_value(args[i]) && i + 1 < args.len() {
            unnamed_options_keep_their_values(c.with_value(args[i], args[i + 1]), args, i + 2);
        } else {
            unnamed_options_keep_their_values(if args[i] == "--insecure"@ { Choices { insecure: true, ..c } } else { c }, args, i + 1);
        }
    }
}

/// What stands behind an option is its value, where the option is not named again.
pub proof fn last_value_counts(c: Choices, args: Seq<Seq<char>>, i: int)
    requires
        0 <= i,
        i + 1 < args.len(),
        !named(args, i + 2, args[i]),
        c.reading(args, i) is Some,
    ensures
        ({
            let r = c.reading(args, i)->0;
            let value = args[i + 1];
            &&& args[i] == "--relay"@ ==> r.relay == value && r.insecure
            &&& args[i] == "--path"@ ==> r.path == value
            &&& args[i] == "--serial"@ ==> r.serial == Some(value)
            &&& args[i] == "--width"@ ==> match parsed(value, u32::MAX as int) {
                Some(n) => r.width == n,
                None => r.width == default_choices().width,
            }
            &&& args[i] == "--height"@ ==> match parsed(value, u32::MAX as int) {
                Some(n) => r.height == n,
                None => r.height == default_choices().height,
            }
            &&& args[i] == "--fps"@ ==> match parsed(value, u32::MAX as int) {
                Some(n) => r.fps == n,
                None => r.fps == default_choices().fps,
            }
            &&& args[i] == "--bitrate"@ ==> (parsed(value, u32::MAX as int) matches Some(n) ==> r.color_bitrate == n)
            &&& args[i] == "--depth-bitrate"@ ==> (parsed(value, u32::MAX as int) matches Some(n) ==> r.depth_bitrate == n)
        }),
{
    options_differ();
    parsed_number_fits(args[i + 1], u32::MAX as int);
    unnamed_options_keep_their_values(c.with_value(args[i], args[i + 1]), args, i + 2);
}

/// A switch is set once it is named, and whoever asks for help gets no choices.
pub proof fn switches_are_set(c: Choices, args: Seq<Seq<char>>, i: int)
    requires
        0 <= i < args.len(),
    ensures
        args[i] == "--help"@ || args[i] == "-h"@ ==> c.reading(args, i) is None,
        c.reading(args, i) matches Some(r) ==> {
            &&& args[i] == "--insecure"@ ==> r.insecure == true
        },
{
    options_differ();
    unnamed_options_keep_their_values(if args[i] == "--insecure"@ { Choices { insecure: true, ..c } } else { c }, args, i + 1);
}

proof fn options_differ()
    ensures
        "--relay"@ != "--path"@,
        "--relay"@ != "--serial"@,
        "--relay"@ != "--width"@,
        "--relay"@ != "--height"@,
        "--relay"@ != "--fps"@,
        "--relay"@ != "--bitrate"@,
        "--relay"@ != "--depth-bitrate"@,
        "--relay"@ != "--insecure"@,
        "--relay"@ != "--help"@,
        "--relay"@ != "-h"@,
        "--path"@ != "--serial"@,
        "--path"@ != "--width"@,
        "--path"@ != "--height"@,
        "--path"@ != "--fps"@,
        "--path"@ != "--bitrate"@,
        "--path"@ != "--depth-bitrate"@,
        "--path"@ != "--insecure"@,
        "--path"@ != "--help"@,
        "--path"@ != "-h"@,
        "--serial"@ != "--width"@,
        "--serial"@ != "--height"@,
        "--serial"@ != "--fps"@,
        "--serial"@ != "--bitrate"@,
        "--serial"@ != "--depth-bitrate"@,
        "--serial"@ != "--insecure"@,
        "--serial"@ != "--help"@,
        "--serial"@ != "-h"@,
        "--width"@ != "--height"@,
        "--width"@ != "--fps"@,
        "--width"@ != "--bitrate"@,
        "--width"@ != "--depth-bitrate"@,
        "--width"@ != "--insecure"@,
        "--width"@ != "--help"@,
        "--width"@ != "-h"@,
        "--height"@ != "--fps"@,
        "--height"@ != "--bitrate"@,
        "--height"@ != "--depth-bitrate"@,
        "--height"@ != "--insecure"@,
        "--height"@ != "--help"@,
        "--height"@ != "-h"@,
        "--fps"@ != "--bitrate"@,
        "--fps"@ != "--depth-bitrate"@,
        "--fps"@ != "--insecure"@,
        "--fps"@ != "--help"@,
        "--fps"@ != "-h"@,
        "--bitrate"@ != "--depth-bitrate"@,
        "--bitrate"@ != "--insecure"@,
        "--bitrate"@ != "--help"@,
        "--bitrate"@ != "-h"@,
        "--depth-bitrate"@ != "--insecure"@,
        "--depth-bitrate"@ != "--help"@,
        "--depth-bitrate"@ != "-h"@,
        "--insecure"@ != "--help"@,
        "--insecure"@ != "-h"@,
        "--help"@ != "-h"@,
{
    reveal_strlit("--relay");
    reveal_strlit("--path");
    reveal_strlit("--serial");
    reveal_strlit("--width");
    reveal_strlit("--height");
    reveal_strlit("--fps");
    reveal_strlit("--bitrate");
    reveal_strlit("--depth-bitrate");
    reveal_strlit("--insecure");
    reveal_strlit("--help");
    reveal_strlit("-h");
    assert("--relay"@.len() == 7);
    assert("--path"@.len() == 6);
    assert("--serial"@.len() == 8);
    assert("--width"@.len() == 7);
    assert("--height"@.len() == 8);
    assert("--fps"@.len() == 5);
    assert("--bitrate"@.len() == 9);
    assert("--depth-bitrate"@.len() == 15);
    assert("--insecure"@.len() == 10);
    assert("--help"@.len() == 6);
    assert("-h"@.len() == 2);
    assert("--relay"@[2] != "--width"@[2]);
    assert("--path"@[2] != "--help"@[2]);
    assert("--serial"@[2] != "--height"@[2]);
}

} // verus!
