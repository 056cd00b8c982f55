//! CAN bridge server.

use crate::text::{chars_of, joined2, named, same, starts_with, string_of, texts};
use vstd::prelude::*;
use vstd::slice::slice_subrange;

verus! {

/// A CAN interface to serve.
#[derive(Debug)]
pub struct InterfaceConfig {
    pub interface: String,
    pub enable_fd: bool,
}

/// A CAN interface to serve: its name, and whether CAN FD is enabled.
pub open spec fn interfaces(v: Seq<InterfaceConfig>) -> Seq<(Seq<char>, bool)> {
    v.map_values(|c: InterfaceConfig| (c.interface@, c.enable_fd))
}

/// The interface that an argument names: `:fd` at its end enables CAN FD.
pub open spec fn interface_of(arg: Seq<char>) -> (Seq<char>, bool) {
    let n = arg.len() - 3;
    if n >= 0 && arg.skip(n) == ":fd"@ {
        (arg.take(n), true)
    } else {
        (arg, false)
    }
}

/// What the command line says: the interfaces, and where keys are kept.
pub struct Choices {
    pub interfaces: Seq<(Seq<char>, bool)>,
    pub key_dir: Seq<char>,
}

impl Choices {
    /// The choices after the arguments from `i` on; `None` where the value of `--key-dir` is
    /// missing or no interface is named. `--no-jitter-buffer` and `--fd` are passed over.
    pub open spec fn reading(self, args: Seq<Seq<char>>, i: int) -> Option<Choices>
        decreases args.len() - i,
    {
        if i < 0 || i >= args.len() {
            if self.interfaces.len() == 0 {
                None
            } else {
                Some(self)
            }
        } else if args[i] == "--key-dir"@ {
            if i + 1 < args.len() {
                Choices { key_dir: args[i + 1], ..self }.reading(args, i + 2)
            } else {
                None
            }
        } else if args[i] == "--no-jitter-buffer"@ || args[i] == "--fd"@ {
            self.reading(args, i + 1)
        } else {
            Choices { interfaces: self.interfaces.push(interface_of(args[i])), ..self }.reading(
                args,
                i + 1,
            )
        }
    }
}

fn read_interface(arg: &str) -> (r: InterfaceConfig)
    ensures
        (r.interface@, r.enable_fd) == interface_of(arg@),
{
    proof {
        reveal_strlit(":fd");
    }
    let chars = chars_of(arg);
    if chars.len() >= 3 {
        let n: usize = chars.len() - 3;
        let tail = slice_subrange(chars.as_slice(), n, chars.len());
        assert(tail@ =~= arg@.skip(n as int));
        let ghost fd = ":fd"@;
        if tail[0] == ':' && tail[1] == 'f' && tail[2] == 'd' {
            assert(tail@ =~= fd);
            let head = slice_subrange(chars.as_slice(), 0, n);
            assert(head@ =~= arg@.take(n as int));
            return InterfaceConfig { interface: string_of(head), enable_fd: true };
        }
        assert(tail@[0] != fd[0] || tail@[1] != fd[1] || tail@[2] != fd[2]);
    }
    InterfaceConfig { interface: arg.to_owned(), enable_fd: false }
}

/// Reads the command line: the interfaces, and where keys are kept. `None` where the usage is to
/// be shown.
pub fn parse_args(args: &[String]) -> (r: Option<(Vec<InterfaceConfig>, String)>)
    ensures
        ({
            let outcome = Choices { interfaces: Seq::empty(), key_dir: "."@ }.reading(texts(args@), 1);
            match r {
                Some((list, dir)) => outcome == Some(
                    Choices { interfaces: interfaces(list@), key_dir: dir@ },
                ),
                None => outcome is None,
            }
        }),
{
    let mut list: Vec<InterfaceConfig> = Vec::new();
    let mut key_dir = ".".to_owned();
    let ghost all = texts(args@);
    let ghost outcome = Choices { interfaces: Seq::empty(), key_dir: "."@ }.reading(all, 1);
    assert(interfaces(list@) =~= Seq::<(Seq<char>, bool)>::empty());
    let count: usize = args.len();
    let mut i: usize = 1;
    while i < count
        invariant
            1 <= i,
            count == args@.len(),
            all == texts(args@),
            outcome == (Choices { interfaces: Seq::empty(), key_dir: "."@ }).reading(all, 1),
            (Choices { interfaces: interfaces(list@), key_dir: key_dir@ }).reading(all, i as int)
                == outcome,
        decreases count - i,
    {
        let arg = args[i].as_str();
        assert(arg@ == all[i as int]);
        if same(arg, "--key-dir") {
            if i == count - 1 {
                return None;
            }
            assert(args@[i + 1]@ == all[i + 1]);
            key_dir = args[i + 1].as_str().to_owned();
            i = if i == count - 2 {
                count
            } else {
                i + 2
            };
        } else if same(arg, "--no-jitter-buffer") || same(arg, "--fd") {
            i = i + 1;
        } else {
            let ghost before = list@;
            let config = read_interface(arg);
            list.push(config);
            assert(interfaces(list@) =~= interfaces(before).push(interface_of(arg@)));
            i = i + 1;
        }
    }
    assert(interfaces(list@).len() == list@.len());
    if list.len() == 0 {
        None
    } else {
        Some((list, key_dir))
    }
}

impl InterfaceConfig {
    /// The name of the file that holds the server's identity.
    pub fn key_name(&self) -> (r: String)
        ensures
            r@ == ".xoq_can_server_key_"@ + self.interface@,
    {
        joined2(".xoq_can_server_key_", &self.interface)
    }
}

/// An argument that ends with `:fd` names the interface before it, with CAN FD; any other names itself.
pub proof fn suffix_enables_fd(name: Seq<char>)
    ensures
        interface_of(name + seq![':', 'f', 'd']) == (name, true),
        !seq![':', 'f', 'd'].is_suffix_of(name) ==> interface_of(name) == (name, false),
{
    reveal_strlit(":fd");
    assert(":fd"@ =~= seq![':', 'f', 'd']);
    let arg = name + seq![':', 'f', 'd'];
    assert(arg.skip(name.len() as int) =~= ":fd"@);
    assert(arg.take(name.len() as int) =~= name);
    let n = name.len() - 3;
    if n >= 0 && name.skip(n) == ":fd"@ {
        assert(name.subrange(n, name.len() as int) =~= name.skip(n));
    }
}

/// The key directory that is named last counts, and without one the old one does. Each argument that
/// is no option names the next interface.
pub proof fn arguments_are_read_in_order(c: Choices, args: Seq<Seq<char>>, i: int)
    requires
        0 <= i,
        c.reading(args, i) is Some,
    ensures
        ({
            let r = c.reading(args, i)->0;
            &&& !named(args, i, "--key-dir"@) ==> r.key_dir == c.key_dir
            &&& i + 1 < args.len() && args[i] == "--key-dir"@ && !named(args, i + 2, "--key-dir"@)
                ==> r.key_dir == args[i + 1]
            &&& c.interfaces.len() <= r.interfaces.len()
            &&& forall|k: int|
                0 <= k < c.interfaces.len() ==> #[trigger] r.interfaces[k] == c.interfaces[k]
            &&& i < args.len() && !starts_with(args[i], seq!['-', '-']) ==> r.interfaces.len()
                > c.interfaces.len() && r.interfaces[c.interfaces.len() as int] == interface_of(args[i])
        }),
    decreases args.len() - i,
{
    options_differ();
    if i < args.len() {
        if args[i] == "--key-dir"@ {
            let next = Choices { key_dir: args[i + 1], ..c };
            arguments_are_read_in_order(next, args, i + 2);
            assert(args[i].take(2) =~= seq!['-', '-']);
        } else if args[i] == "--no-jitter-buffer"@ || args[i] == "--fd"@ {
            arguments_are_read_in_order(c, args, i + 1);
            assert(args[i].take(2) =~= seq!['-', '-']);
        } else {
            let next = Choices { interfaces: c.interfaces.push(interface_of(args[i])), ..c };
            arguments_are_read_in_order(next, args, i + 1);
            assert(next.interfaces[c.interfaces.len() as int] == interface_of(args[i]));
        }
    }
}

proof fn options_differ()
    ensures
        "--key-dir"@ != "--no-jitter-buffer"@,
        "--key-dir"@ != "--fd"@,
        "--no-jitter-buffer"@ != "--fd"@,
        "--key-dir"@.len() > 1,
        "--key-dir"@[0] == '-',
        "--key-dir"@[1] == '-',
        "--no-jitter-buffer"@.len() > 1,
        "--no-jitter-buffer"@[0] == '-',
        "--no-jitter-buffer"@[1] == '-',
        "--fd"@.len() > 1,
        "--fd"@[0] == '-',
        "--fd"@[1] == '-',
{
    reveal_strlit("--key-dir");
    reveal_strlit("--no-jitter-buffer");
    reveal_strlit("--fd");
    assert("--key-dir"@.len() == 9);
    assert("--no-jitter-buffer"@.len() == 18);
    assert("--fd"@.len() == 4);
}

} // verus!
