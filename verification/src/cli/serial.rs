//! Servers for a serial port.

use crate::text::{chars_of, has_prefix, named, opt_text, parse_number, parsed, parsed_number_fits, same, starts_with, texts};
use vstd::prelude::*;

verus! {

/// What the command line says.
#[derive(Debug)]
pub struct Args {
    pub port: String,
    pub baud_rate: u32,
    pub moq_relay: Option<String>,
    pub moq_path: Option<String>,
    pub moq_insecure: bool,
    pub key_dir: String,
}

/// What the command line says so far.
pub struct Choices {
    pub port: Option<Seq<char>>,
    pub baud_rate: u32,
    pub moq_relay: Option<Seq<char>>,
    pub moq_path: Option<Seq<char>>,
    pub moq_insecure: bool,
    pub key_dir: Seq<char>,
}

impl View for Args {
    type V = Choices;

    open spec fn view(&self) -> Choices {
        Choices {
            port: Some(self.port@),
            baud_rate: self.baud_rate,
            moq_relay: opt_text(self.moq_relay),
            moq_path: opt_text(self.moq_path),
            moq_insecure: self.moq_insecure,
            key_dir: self.key_dir@,
        }
    }
}

/// The choices before any argument is read.
pub open spec fn default_choices() -> Choices {
    Choices {
        port: None,
        baud_rate: 115200,
        moq_relay: None,
        moq_path: None,
        moq_insecure: false,
        key_dir: "."@,
    }
}

/// Whether an option takes a value.
pub open spec fn takes_value(arg: Seq<char>) -> bool {
    arg == "--moq-relay"@ || arg == "--moq-path"@ || arg == "--key-dir"@
}

impl Choices {
    /// The choices after an option with its value.
    pub open spec fn with_value(self, arg: Seq<char>, value: Seq<char>) -> Choices {
        if arg == "--moq-relay"@ {
            Choices { moq_relay: Some(value), ..self }
        } else if arg == "--moq-path"@ {
            Choices { moq_path: Some(value), ..self }
        } else {
            Choices { key_dir: value, ..self }
        }
    }

    /// The choices after an argument that is no option: the first one is the port, and of the
    /// others a number is the baud rate.
    pub open spec fn with_word(self, word: Seq<char>) -> Choices {
        if self.port is None {
            Choices { port: Some(word), ..self }
        } else {
            match parsed(word, u32::MAX as int) {
                Some(n) => Choices { baud_rate: n as u32, ..self },
                None => self,
            }
        }
    }

    /// The choices after the arguments from `i` on. `None` where help is asked for, the value of
    /// an option is missing, or there is no port. `--moq` and a path behind it are passed over.
    pub open spec fn reading(self, args: Seq<Seq<char>>, i: int) -> Option<Choices>
        decreases args.len() - i,
    {
        if i < 0 || i >= args.len() {
            if self.port is None {
                None
            } else {
                Some(self)
            }
        } else if takes_value(args[i]) {
            if i + 1 < args.len() {
                self.with_value(args[i], args[i + 1]).reading(args, i + 2)
            } else {
                None
            }
        } else if args[i] == "--moq-insecure"@ {
            Choices { moq_insecure: true, ..self }.reading(args, i + 1)
        } else if args[i] == "--help"@ || args[i] == "-h"@ {
            None
        } else if args[i] == "--moq"@ {
            if i + 1 < args.len() && !starts_with(args[i + 1], "-"@) {
                self.reading(args, i + 2)
            } else {
                self.reading(args, i + 1)
            }
        } else {
            self.with_word(args[i]).reading(args, i + 1)
        }
    }
}

struct Draft {
    port: Option<String>,
    baud_rate: u32,
    moq_relay: Option<String>,
    moq_path: Option<String>,
    moq_insecure: bool,
    key_dir: String,
}

impl Draft {
    spec fn model(&self) -> Choices {
        Choices {
            port: opt_text(self.port),
            baud_rate: self.baud_rate,
            moq_relay: opt_text(self.moq_relay),
            moq_path: opt_text(self.moq_path),
            moq_insecure: self.moq_insecure,
            key_dir: self.key_dir@,
        }
    }

    fn set(self, arg: &str, value: &str) -> (r: Self)
        ensures
            r.model() == self.model().with_value(arg@, value@),
    {
        let mut r = self;
        if same(arg, "--moq-relay") {
            r.moq_relay = Some(value.to_owned());
        } else if same(arg, "--moq-path") {
            r.moq_path = Some(value.to_owned());
        } else {
            r.key_dir = value.to_owned();
        }
        r
    }

    fn word(self, word: &str) -> (r: Self)
        ensures
            r.model() == self.model().with_word(word@),
    {
        let mut r = self;
        if r.port.is_none() {
            r.port = Some(word.to_owned());
        } else if let Some(n) = parse_number(word, u32::MAX as u64) {
            r.baud_rate = n as u32;
        }
        r
    }
}

fn dashed(s: &str) -> (r: bool)
    ensures
        r == starts_with(s@, "-"@),
{
    has_prefix(&chars_of(s), "-")
}

/// Reads the command line. `None` where the usage is to be shown.
pub fn parse_args(args: &[String]) -> (r: Option<Args>)
    ensures
        match r {
            Some(a) => default_choices().reading(texts(args@), 1) == Some(a@),
            None => default_choices().reading(texts(args@), 1) is None,
        },
{
    let mut draft = Draft {
        port: None,
        baud_rate: 115200,
        moq_relay: None,
        moq_path: None,
        moq_insecure: false,
        key_dir: ".".to_owned(),
    };
    let ghost all = texts(args@);
    let ghost outcome = default_choices().reading(all, 1);
    let count: usize = args.len();
    let mut i: usize = 1;
    while i < count
        invariant
            1 <= i,
            count == args@.len(),
            all == texts(args@),
            outcome == default_choices().reading(all, 1),
            draft.model().reading(all, i as int) == outcome,
        decreases count - i,
    {
        let arg = args[i].as_str();
        assert(arg@ == all[i as int]);
        if same(arg, "--moq-relay") || same(arg, "--moq-path") || same(arg, "--key-dir") {
            if i == count - 1 {
                return None;
            }
            assert(args@[i + 1]@ == all[i + 1]);
            draft = draft.set(arg, &args[i + 1]);
            i = if i == count - 2 {
                count
            } else {
                i + 2
            };
        } else if same(arg, "--moq-insecure") {
            draft.moq_insecure = true;
            i = i + 1;
        } else if same(arg, "--help") || same(arg, "-h") {
            return None;
        } else if same(arg, "--moq") {
            i = i + 1;
            if i < count {
                assert(args@[i as int]@ == all[i as int]);
                if !dashed(&args[i]) {
                    i = i + 1;
                }
            }
        } else {
            draft = draft.word(arg);
            i = i + 1;
        }
    }
    match draft.port {
        Some(port) => Some(
            Args {
                port,
                baud_rate: draft.baud_rate,
                moq_relay: draft.moq_relay,
                moq_path: draft.moq_path,
                moq_insecure: draft.moq_insecure,
                key_dir: draft.key_dir,
            },
        ),
        None => None,
    }
}

/// What the command line of the relay-only server says.
#[derive(Debug)]
pub struct RelayArgs {
    pub port: String,
    pub baud_rate: u32,
    pub relay_url: String,
    pub moq_path: String,
}

/// The argument at place `i`, or a default where there is none.
pub open spec fn arg_or(args: Seq<Seq<char>>, i: int, default: Seq<char>) -> Seq<char> {
    if i < args.len() {
        args[i]
    } else {
        default
    }
}

fn get_or(args: &[String], i: usize, default: &str) -> (r: String)
    ensures
        r@ == arg_or(texts(args@), i as int, default@),
{
    if i < args.len() {
        args[i].as_str().to_owned()
    } else {
        default.to_owned()
    }
}

/// Reads the command line of the relay-only server: the port, the baud rate, the relay and the
/// path, in this order. `None` where the port is missing.
pub fn parse_relay_args(args: &[String]) -> (r: Option<RelayArgs>)
    ensures
        match r {
            Some(a) => {
                let all = texts(args@);
                &&& all.len() >= 2
                &&& a.port@ == all[1]
                &&& a.baud_rate == (match parsed(arg_or(all, 2, ""@), u32::MAX as int) {
                    Some(n) => n,
                    None => 1000000,
                })
                &&& a.relay_url@ == arg_or(all, 3, "https://172.18.133.111:4443"@)
                &&& a.moq_path@ == arg_or(all, 4, "anon/xoq-serial"@)
            },
            None => args@.len() < 2,
        },
{
    if args.len() < 2 {
        return None;
    }
    let baud_rate: u32 = match parse_number(&get_or(args, 2, ""), u32::MAX as u64) {
        Some(n) => n as u32,
        None => 1000000,
    };
    Some(
        RelayArgs {
            port: get_or(args, 1, ""),
            baud_rate,
            relay_url: get_or(args, 3, "https://172.18.133.111:4443"),
            moq_path: get_or(args, 4, "anon/xoq-serial"),
        },
    )
}

/// An option that is not named keeps the value that it had, a switch that was set stays set, and the
/// port that was named first stays the port. Whoever gets choices has named a port.
pub proof fn unnamed_options_keep_their_values(c: Choices, args: Seq<Seq<char>>, i: int)
    requires
        0 <= i,
    ensures
        c.reading(args, i) matches Some(r) ==> {
            &&& !named(args, i, "--moq-relay"@) ==> r.moq_relay == c.moq_relay
            &&& !named(args, i, "--moq-path"@) ==> r.moq_path == c.moq_path
            &&& !named(args, i, "--key-dir"@) ==> r.key_dir == c.key_dir
            &&& !named(args, i, "--moq-insecure"@) ==> r.moq_insecure == c.moq_insecure
            &&& c.moq_insecure ==> r.moq_insecure
            &&& c.port is Some ==> r.port == c.port
            &&& r.port is Some
        },
    decreases args.len() - i,
{
    if i < args.len() {
        if takes_value(args[i]) {
            if i + 1 < args.len() {
                unnamed_options_keep_their_values(c.with_value(args[i], args[i + 1]), args, i + 2);
            }
        } else if args[i] == "--moq-insecure"@ {
            unnamed_options_keep_their_values(Choices { moq_insecure: true, ..c }, args, i + 1);
        } else if args[i] == "--moq"@ {
            if i + 1 < args.len() {
                unnamed_options_keep_their_values(c, args, i + 2);
            }
            unnamed_options_keep_their_values(c, args, i + 1);
        } else {
            unnamed_options_keep_their_values(c.with_word(args[i]), args, i + 1);
        }
    }
}

/// What stands behind an option is its value, where the option is not named again; without a value
/// there are no choices.
pub proof fn last_value_counts(c: Choices, args: Seq<Seq<char>>, i: int)
    requires
        0 <= i < args.len(),
        !named(args, i + 2, args[i]),
    ensures
        i + 1 == args.len() && (args[i] == "--moq-relay"@ || args[i] == "--moq-path"@ || args[i]
            == "--key-dir"@) ==> c.reading(args, i) is None,
        i + 1 < args.len() ==> (c.reading(args, i) matches Some(r) ==> {
            &&& args[i] == "--moq-relay"@ ==> r.moq_relay == Some(args[i + 1])
            &&& args[i] == "--moq-path"@ ==> r.moq_path == Some(args[i + 1])
            &&& args[i] == "--key-dir"@ ==> r.key_dir == args[i + 1]
        }),
{
    options_differ();
    if i + 1 < args.len() {
        unnamed_options_keep_their_values(c.with_value(args[i], args[i + 1]), args, i + 2);
    }
}

/// A switch is set once it is named, and whoever asks for help gets no choices.
pub proof fn switches_are_set(c: Choices, args: Seq<Seq<char>>, i: int)
    requires
        0 <= i < args.len(),
    ensures
        args[i] == "--help"@ || args[i] == "-h"@ ==> c.reading(args, i) is None,
        args[i] == "--moq-insecure"@ ==> (c.reading(args, i) matches Some(r) ==> r.moq_insecure),
{
    options_differ();
    unnamed_options_keep_their_values(Choices { moq_insecure: true, ..c }, args, i + 1);
}

/// The first argument that is no option is the port, and a number that stands last behind it is the
/// baud rate.
pub proof fn words_are_port_and_rate(c: Choices, args: Seq<Seq<char>>, i: int)
    requires
        0 <= i < args.len(),
        !starts_with(args[i], seq!['-']),
    ensures
        c.port is None ==> (c.reading(args, i) matches Some(r) ==> r.port == Some(args[i])),
        c.port is Some && i + 1 == args.len() ==> c.reading(args, i) is Some,
        c.port is Some && i + 1 == args.len() && parsed(args[i], u32::MAX as int) is Some
            ==> c.reading(args, i)->0.baud_rate == parsed(args[i], u32::MAX as int)->0,
{
    options_differ();
    parsed_number_fits(args[i], u32::MAX as int);
    assert(args[i].len() > 0 && args[i][0] == '-' ==> args[i].take(1) =~= seq!['-']);
    unnamed_options_keep_their_values(c.with_word(args[i]), args, i + 1);
}

proof fn options_differ()
    ensures
        "--moq-relay"@ != "--moq-path"@,
        "--moq-relay"@ != "--key-dir"@,
        "--moq-relay"@ != "--moq-insecure"@,
        "--moq-relay"@ != "--help"@,
        "--moq-relay"@ != "-h"@,
        "--moq-relay"@ != "--moq"@,
        "--moq-path"@ != "--key-dir"@,
        "--moq-path"@ != "--moq-insecure"@,
        "--moq-path"@ != "--help"@,
        "--moq-path"@ != "-h"@,
        "--moq-path"@ != "--moq"@,
        "--key-dir"@ != "--moq-insecure"@,
        "--key-dir"@ != "--help"@,
        "--key-dir"@ != "-h"@,
        "--key-dir"@ != "--moq"@,
        "--moq-insecure"@ != "--help"@,
        "--moq-insecure"@ != "-h"@,
        "--moq-insecure"@ != "--moq"@,
        "--help"@ != "-h"@,
        "--help"@ != "--moq"@,
        "-h"@ != "--moq"@,
        "--moq-relay"@.len() > 0,
        "--moq-relay"@[0] == '-',
        "--moq-path"@.len() > 0,
        "--moq-path"@[0] == '-',
        "--key-dir"@.len() > 0,
        "--key-dir"@[0] == '-',
        "--moq-insecure"@.len() > 0,
        "--moq-insecure"@[0] == '-',
        "--help"@.len() > 0,
        "--help"@[0] == '-',
        "-h"@.len() > 0,
        "-h"@[0] == '-',
        "--moq"@.len() > 0,
        "--moq"@[0] == '-',
{
    reveal_strlit("--moq-relay");
    reveal_strlit("--moq-path");
    reveal_strlit("--key-dir");
    reveal_strlit("--moq-insecure");
    reveal_strlit("--help");
    reveal_strlit("-h");
    reveal_strlit("--moq");
    assert("--moq-relay"@.len() == 11);
    assert("--moq-path"@.len() == 10);
    assert("--key-dir"@.len() == 9);
    assert("--moq-insecure"@.len() == 14);
    assert("--help"@.len() == 6);
    assert("-h"@.len() == 2);
    assert("--moq"@.len() == 5);
}

} // verus!
