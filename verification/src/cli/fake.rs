//! Servers without hardware: simulated motors on a CAN bus, and a serial port that echoes.

use crate::bridge_server::MoqConfig;
use crate::text::{
    chars_of, joined2, joined3, named, opt_text, replace_char, replaced, same, string_of, texts,
};
use vstd::prelude::*;

verus! {

/// Which server is started.
#[derive(Debug, Clone, Copy, PartialEq, Eq, Structural)]
pub enum Program {
    /// Motors on a CAN bus.
    Can,
    /// A serial port.
    Serial,
}

/// What the command line says.
#[derive(Debug)]
pub struct Args {
    pub iroh_relay: Option<String>,
    pub moq_relay: Option<String>,
    pub moq_path: String,
    pub moq_insecure: bool,
    pub key_dir: String,
    /// Simulate gravity (CAN only).
    pub gravity: bool,
    /// The arm to simulate (CAN only).
    pub arm: String,
}

/// What the command line says.
pub struct Choices {
    pub iroh_relay: Option<Seq<char>>,
    pub moq_relay: Option<Seq<char>>,
    pub moq_path: Seq<char>,
    pub moq_insecure: bool,
    pub key_dir: Seq<char>,
    pub gravity: bool,
    pub arm: Seq<char>,
}

impl View for Args {
    type V = Choices;

    open spec fn view(&self) -> Choices {
        Choices {
            iroh_relay: opt_text(self.iroh_relay),
            moq_relay: opt_text(self.moq_relay),
            moq_path: self.moq_path@,
            moq_insecure: self.moq_insecure,
            key_dir: self.key_dir@,
            gravity: self.gravity,
            arm: self.arm@,
        }
    }
}

/// The choices before any argument is read.
pub open spec fn default_choices(program: Program) -> Choices {
    Choices {
        iroh_relay: None,
        moq_relay: None,
        moq_path: match program {
            Program::Can => "anon/xoq-can-can0"@,
            Program::Serial => "anon/xoq-serial"@,
        },
        moq_insecure: false,
        key_dir: "."@,
        gravity: false,
        arm: "left"@,
    }
}

/// Whether an option takes a value.
pub open spec fn takes_value(program: Program, arg: Seq<char>) -> bool {
    arg == "--iroh-relay"@ || arg == "--moq-relay"@ || arg == "--moq-path"@ || arg == "--key-dir"@
        || (program == Program::Can && arg == "--arm"@)
}

impl Choices {
    /// The choices after an option with its value.
    pub open spec fn with_value(self, arg: Seq<char>, value: Seq<char>) -> Choices {
        if arg == "--iroh-relay"@ {
            Choices { iroh_relay: Some(value), ..self }
        } else if arg == "--moq-relay"@ {
            Choices { moq_relay: Some(value), ..self }
        } else if arg == "--moq-path"@ {
            Choices { moq_path: value, ..self }
        } else if arg == "--key-dir"@ {
            Choices { key_dir: value, ..self }
        } else {
            Choices { arm: value, ..self }
        }
    }

    /// The choices after an argument that stands alone.
    pub open spec fn with_flag(self, program: Program, arg: Seq<char>) -> Choices {
        if arg == "--moq-insecure"@ {
            Choices { moq_insecure: true, ..self }
        } else if program == Program::Can && arg == "--gravity"@ {
            Choices { gravity: true, ..self }
        } else {
            self
        }
    }

    /// The choices after the arguments from `i` on; `None` where help is asked for.
    pub open spec fn reading(self, program: Program, args: Seq<Seq<char>>, i: int) -> Option<Choices>
        decreases args.len() - i,
    {
        if i < 0 || i >= args.len() {
            Some(self)
        } else if takes_value(program, args[i]) && i + 1 < args.len() {
            self.with_value(args[i], args[i + 1]).reading(program, args, i + 2)
        } else if args[i] == "--help"@ || args[i] == "-h"@ {
            None
        } else {
            self.with_flag(program, args[i]).reading(program, args, i + 1)
        }
    }
}

fn value_option(program: Program, arg: &str) -> (r: bool)
    ensures
        r == takes_value(program, arg@),
{
    same(arg, "--iroh-relay") || same(arg, "--moq-relay") || same(arg, "--moq-path") || same(
        arg,
        "--key-dir",
    ) || (program == Program::Can && same(arg, "--arm"))
}

impl Args {
    fn set(self, arg: &str, value: &str) -> (r: Self)
        ensures
            r@ == self@.with_value(arg@, value@),
    {
        let mut r = self;
        if same(arg, "--iroh-relay") {
            r.iroh_relay = Some(value.to_owned());
        } else if same(arg, "--moq-relay") {
            r.moq_relay = Some(value.to_owned());
        } else if same(arg, "--moq-path") {
            r.moq_path = value.to_owned();
        } else if same(arg, "--key-dir") {
            r.key_dir = value.to_owned();
        } else {
            r.arm = value.to_owned();
        }
        r
    }

    fn flag(self, program: Program, arg: &str) -> (r: Self)
        ensures
            r@ == self@.with_flag(program, arg@),
    {
        let mut r = self;
        if same(arg, "--moq-insecure") {
            r.moq_insecure = true;
        } else if program == Program::Can && same(arg, "--gravity") {
            r.gravity = true;
        }
        r
    }
}

/// Reads the command line. `None` asks for help.
pub fn parse_args(program: Program, args: &[String]) -> (r: Option<Args>)
    ensures
        match r {
            Some(a) => default_choices(program).reading(program, texts(args@), 1) == Some(a@),
            None => default_choices(program).reading(program, texts(args@), 1) is None,
        },
{
    let mut result = Args {
        iroh_relay: None,
        moq_relay: None,
        moq_path: match program {
            Program::Can => "anon/xoq-can-can0".to_owned(),
            Program::Serial => "anon/xoq-serial".to_owned(),
        },
        moq_insecure: false,
        key_dir: ".".to_owned(),
        gravity: false,
        arm: "left".to_owned(),
    };
    let ghost all = texts(args@);
    let ghost outcome = default_choices(program).reading(program, all, 1);
    let count: usize = args.len();
    let mut i: usize = 1;
    while i < count
        invariant
            1 <= i,
            count == args@.len(),
            all == texts(args@),
            outcome == default_choices(program).reading(program, all, 1),
            result@.reading(program, all, i as int) == outcome,
        decreases count - i,
    {
        let arg = args[i].as_str();
        assert(arg@ == all[i as int]);
        if i < count - 1 && value_option(program, arg) {
            assert(args@[i + 1]@ == all[i + 1]);
            result = result.set(arg, &args[i + 1]);
            if i == count - 2 {
                i = count;
            } else {
                i = i + 2;
            }
        } else if same(arg, "--help") || same(arg, "-h") {
            return None;
        } else {
            result = result.flag(program, arg);
            i = i + 1;
        }
    }
    Some(result)
}

/// Whether a character is a letter or a digit of any script.
pub uninterp spec fn alphanumeric(c: char) -> bool;

/// Calls `char::is_alphanumeric`, which tells by the Unicode tables whether a character is
/// alphabetic or numeric. Nothing is said here of which characters are.
#[verifier::external_body]
fn is_alphanumeric(c: char) -> (r: bool)
    ensures
        r == alphanumeric(c),
{
    c.is_alphanumeric()
}

/// Whether a character may stand in the name of a key file.
pub open spec fn kept(c: char) -> bool {
    alphanumeric(c) || c == '_' || c == '-'
}

/// A MoQ path as part of a file name: `_` in place of `/`, and nothing but letters, digits, `_`
/// and `-`.
pub open spec fn key_suffix(path: Seq<char>) -> Seq<char> {
    replaced(path, '/', '_').filter(|c: char| kept(c))
}

fn suffix_of(path: &str) -> (r: String)
    ensures
        r@ == key_suffix(path@),
{
    let flat = chars_of(&replace_char(path, '/', '_'));
    let mut chars: Vec<char> = Vec::new();
    let mut i: usize = 0;
    assert(flat@.take(0).filter(|c: char| kept(c)) =~= Seq::<char>::empty()) by {
        reveal(Seq::filter);
    }
    while i < flat.len()
        invariant
            i <= flat.len(),
            chars@ == flat@.take(i as int).filter(|c: char| kept(c)),
        decreases flat.len() - i,
    {
        let c = flat[i];
        assert(flat@.take(i + 1).drop_last() =~= flat@.take(i as int));
        assert(flat@.take(i + 1).filter(|c: char| kept(c)) == (if kept(c) {
            chars@.push(c)
        } else {
            chars@
        })) by {
            reveal(Seq::filter);
        }
        if c == '_' || c == '-' || is_alphanumeric(c) {
            chars.push(c);
        }
        i = i + 1;
    }
    assert(flat@.take(i as int) =~= flat@);
    string_of(&chars)
}

impl Args {
    /// How the server uses a relay: not at all without a relay URL.
    pub fn moq_config(&self, program: Program) -> (r: Option<MoqConfig>)
        ensures
            match r {
                Some(config) => {
                    &&& self.moq_relay matches Some(u) && config.relay@ == u@
                    &&& config.path@ == self.moq_path@
                    &&& config.insecure == self.moq_insecure
                    &&& (config.state_subpath@, config.command_subpath@, config.track_name@) == (
                    match program {
                        Program::Can => ("state"@, "commands"@, "can"@),
                        Program::Serial => ("s2c"@, "c2s"@, "data"@),
                    })
                },
                None => self.moq_relay is None,
            },
    {
        match &self.moq_relay {
            Some(relay) => {
                let (state, command, track) = match program {
                    Program::Can => ("state", "commands", "can"),
                    Program::Serial => ("s2c", "c2s", "data"),
                };
                Some(
                    MoqConfig {
                        relay: relay.as_str().to_owned(),
                        path: self.moq_path.as_str().to_owned(),
                        insecure: self.moq_insecure,
                        state_subpath: state.to_owned(),
                        command_subpath: command.to_owned(),
                        track_name: track.to_owned(),
                    },
                )
            },
            None => None,
        }
    }

    /// The file that holds the server's identity. For simulated motors its name keeps the letters
    /// and digits of the MoQ path, and its `_` and `-`, with `_` for each `/`.
    pub fn identity_path(&self, program: Program) -> (r: String)
        ensures
            r@ == (match program {
                Program::Can => self.key_dir@ + "/.xoq_fake_can_server_key_"@ + key_suffix(
                    self.moq_path@,
                ),
                Program::Serial => self.key_dir@ + "/.xoq_fake_serial_server_key"@,
            }),
    {
        match program {
            Program::Can => joined3(
                &self.key_dir,
                "/.xoq_fake_can_server_key_",
                &suffix_of(&self.moq_path),
            ),
            Program::Serial => joined2(&self.key_dir, "/.xoq_fake_serial_server_key"),
        }
    }

    /// Whether the right arm is simulated.
    pub fn right_arm(&self) -> (r: bool)
        ensures
            r == (self.arm@ == "right"@),
    {
        same(&self.arm, "right")
    }
}

/// An option that is not named keeps the value that it had, and a switch that was set stays set. Only
/// a question for help leads to no choices.
pub proof fn unnamed_options_keep_their_values(c: Choices, program: Program, args: Seq<Seq<char>>, i: int)
    requires
        0 <= i,
    ensures
        !named(args, i, "--help"@) && !named(args, i, "-h"@) ==> c.reading(program, args, i) is Some,
        c.reading(program, args, i) matches Some(r) ==> {
            &&& !named(args, i, "--iroh-relay"@) ==> r.iroh_relay == c.iroh_relay
            &&& !named(args, i, "--moq-relay"@) ==> r.moq_relay == c.moq_relay
            &&& !named(args, i, "--moq-path"@) ==> r.moq_path == c.moq_path
            &&& !named(args, i, "--key-dir"@) ==> r.key_dir == c.key_dir
            &&& !named(args, i, "--arm"@) ==> r.arm == c.arm
            &&& !named(args, i, "--moq-insecure"@) ==> r.moq_insecure == c.moq_insecure
            &&& !named(args, i, "--gravity"@) ==> r.gravity == c.gravity
            &&& c.moq_insecure == true ==> r.moq_insecure == true
            &&& c.gravity == (program == Program::Can || c.gravity) ==> r.gravity == (program == Program::Can || c.gravity)
            &&& program == Program::Serial ==> r.gravity == c.gravity && r.arm == c.arm
        },
    decreases args.len() - i,
{
    if i < args.len() {
        if takes_value(program, args[i]) && i + 1 < args.len() {
            unnamed_options_keep_their_values(c.with_value(args[i], args[i + 1]), program, args, i + 2);
        } else {
            unnamed_options_keep_their_values(c.with_flag(program, args[i]), program, args, i + 1);
        }
    }
}

/// What stands behind an option is its value, where the option is not named again.
pub proof fn last_value_counts(c: Choices, program: Program, args: Seq<Seq<char>>, i: int)
    requires
        0 <= i,
        i + 1 < args.len(),
        !named(args, i + 2, args[i]),
        c.reading(program, args, i) is Some,
    ensures
        ({
            let r = c.reading(program, args, i)->0;
            let value = args[i + 1];
            &&& args[i] == "--iroh-relay"@ ==> r.iroh_relay == Some(value)
            &&& args[i] == "--moq-relay"@ ==> r.moq_relay == Some(value)
            &&& args[i] == "--moq-path"@ ==> r.moq_path == value
            &&& args[i] == "--key-dir"@ ==> r.key_dir == value
            &&& args[i] == "--arm"@ && program == Program::Can ==> r.arm == value
        }),
{
    options_differ();
    unnamed_options_keep_their_values(c.with_value(args[i], args[i + 1]), program, args, i + 2);
}

/// A switch is set once it is named, and whoever asks for help gets no choices.
pub proof fn switches_are_set(c: Choices, program: Program, args: Seq<Seq<char>>, i: int)
    requires
        0 <= i < args.len(),
    ensures
        args[i] == "--help"@ || args[i] == "-h"@ ==> c.reading(program, args, i) is None,
        c.reading(program, args, i) matches Some(r) ==> {
            &&& args[i] == "--moq-insecure"@ ==> r.moq_insecure == true
            &&& args[i] == "--gravity"@ ==> r.gravity == (program == Program::Can || c.gravity)
        },
{
    options_differ();
    unnamed_options_keep_their_values(c.with_flag(program, args[i]), program, args, i + 1);
}

proof fn options_differ()
    ensures
        "--iroh-relay"@ != "--moq-relay"@,
        "--iroh-relay"@ != "--moq-path"@,
        "--iroh-relay"@ != "--key-dir"@,
        "--iroh-relay"@ != "--arm"@,
        "--iroh-relay"@ != "--moq-insecure"@,
        "--iroh-relay"@ != "--gravity"@,
        "--iroh-relay"@ != "--help"@,
        "--iroh-relay"@ != "-h"@,
        "--moq-relay"@ != "--moq-path"@,
        "--moq-relay"@ != "--key-dir"@,
        "--moq-relay"@ != "--arm"@,
        "--moq-relay"@ != "--moq-insecure"@,
        "--moq-relay"@ != "--gravity"@,
        "--moq-relay"@ != "--help"@,
        "--moq-relay"@ != "-h"@,
        "--moq-path"@ != "--key-dir"@,
        "--moq-path"@ != "--arm"@,
        "--moq-path"@ != "--moq-insecure"@,
        "--moq-path"@ != "--gravity"@,
        "--moq-path"@ != "--help"@,
        "--moq-path"@ != "-h"@,
        "--key-dir"@ != "--arm"@,
        "--key-dir"@ != "--moq-insecure"@,
        "--key-dir"@ != "--gravity"@,
        "--key-dir"@ != "--help"@,
        "--key-dir"@ != "-h"@,
        "--arm"@ != "--moq-insecure"@,
        "--arm"@ != "--gravity"@,
        "--arm"@ != "--help"@,
        "--arm"@ != "-h"@,
        "--moq-insecure"@ != "--gravity"@,
        "--moq-insecure"@ != "--help"@,
        "--moq-insecure"@ != "-h"@,
        "--gravity"@ != "--help"@,
        "--gravity"@ != "-h"@,
        "--help"@ != "-h"@,
{
    reveal_strlit("--iroh-relay");
    reveal_strlit("--moq-relay");
    reveal_strlit("--moq-path");
    reveal_strlit("--key-dir");
    reveal_strlit("--arm");
    reveal_strlit("--moq-insecure");
    reveal_strlit("--gravity");
    reveal_strlit("--help");
    reveal_strlit("-h");
    assert("--iroh-relay"@.len() == 12);
    assert("--moq-relay"@.len() == 11);
    assert("--moq-path"@.len() == 10);
    assert("--key-dir"@.len() == 9);
    assert("--arm"@.len() == 5);
    assert("--moq-insecure"@.len() == 14);
    assert("--gravity"@.len() == 9);
    assert("--help"@.len() == 6);
    assert("-h"@.len() == 2);
    assert("--key-dir"@[2] != "--gravity"@[2]);
}

/// The part of the key file's name that comes from a path holds only characters that may stand there.
pub proof fn suffix_may_stand_in_a_file_name(path: Seq<char>)
    ensures
        key_suffix(path).len() <= path.len(),
        forall|i: int| 0 <= i < key_suffix(path).len() ==> kept(#[trigger] key_suffix(path)[i]),
    decreases path.len(),
{
    reveal(Seq::filter);
    if path.len() > 0 {
        suffix_may_stand_in_a_file_name(path.drop_last());
        suffix_follows_the_path(path.drop_last(), path.last());
        assert(path.drop_last().push(path.last()) =~= path);
    }
}

/// The name follows the path character by character: a slash becomes `_`, a character that may stand
/// in the name is kept, and any other is left out.
pub proof fn suffix_follows_the_path(path: Seq<char>, c: char)
    ensures
        c == '/' ==> key_suffix(path.push(c)) == key_suffix(path).push('_'),
        c != '/' && kept(c) ==> key_suffix(path.push(c)) == key_suffix(path).push(c),
        c != '/' && !kept(c) ==> key_suffix(path.push(c)) == key_suffix(path),
{
    reveal(Seq::filter);
    let all = path.push(c);
    let wide = replaced(all, '/', '_');
    assert(wide.drop_last() =~= replaced(path, '/', '_'));
    assert(path.push(c).drop_last() =~= path);
}

} // verus!
