//! CAN bridge server: between a local CAN interface and the network.
//!
//! Frames travel as 72-byte records. What comes from the network arrives in pieces of any
//! size and is put together here; so are the rules on a full transmit queue and on the state
//! of the bus.

use crate::bridge_server::MoqConfig;
use crate::can_types::wire::{
    decode, decoded, decodes_what_was_encoded, encode, encoded, encoded_len, travels, FRAME_SIZE,
};
use crate::can_types::{AnyCanFrame, AnyFrame};
use crate::endian::put_bytes;
use crate::text::{
    character_is_found, chars_of, find, find_from, first_word, first_word_reads_back,
    found_pattern_is_there, has_prefix, is_space, joined2, same, starts_with, string_of, trim, trimmed,
    trimming_gives_the_text_back, word,
};
use vstd::prelude::*;

verus! {

/// What frames hold.
pub open spec fn frame_views(frames: Seq<AnyCanFrame>) -> Seq<AnyFrame> {
    Seq::new(frames.len(), |i: int| frames[i]@)
}

/// The frames whose records are complete in `s`.
pub open spec fn frames_in(s: Seq<u8>) -> Seq<AnyFrame>
    decreases s.len(),
{
    if s.len() < FRAME_SIZE {
        Seq::empty()
    } else {
        seq![decoded(s)] + frames_in(s.skip(FRAME_SIZE as int))
    }
}

/// The beginning of a record at the end of `s`.
pub open spec fn remainder(s: Seq<u8>) -> Seq<u8>
    decreases s.len(),
{
    if s.len() < FRAME_SIZE {
        s
    } else {
        remainder(s.skip(FRAME_SIZE as int))
    }
}

/// The records of frames, one after another.
pub open spec fn records(frames: Seq<AnyFrame>) -> Seq<u8>
    decreases frames.len(),
{
    if frames.len() == 0 {
        Seq::empty()
    } else {
        encoded(frames[0]) + records(frames.drop_first())
    }
}

/// Puts frames together from pieces of network data.
#[derive(Debug)]
pub struct FrameAssembler {
    pending: Vec<u8>,
}

impl View for FrameAssembler {
    type V = Seq<u8>;

    closed spec fn view(&self) -> Seq<u8> {
        self.pending@
    }
}

impl FrameAssembler {
    /// Nothing has arrived yet.
    pub fn new() -> (r: Self)
        ensures
            r@ == Seq::<u8>::empty(),
    {
        FrameAssembler { pending: Vec::new() }
    }

    /// Takes in a piece of data and hands out the frames that are complete with it.
    pub fn push(&mut self, data: &[u8]) -> (r: Vec<AnyCanFrame>)
        ensures
            frame_views(r@) == frames_in(old(self)@ + data@),
            final(self)@ == remainder(old(self)@ + data@),
    {
        let ghost all = self@ + data@;
        put_bytes(&mut self.pending, data);
        let mut frames: Vec<AnyCanFrame> = Vec::new();
        let mut pos: usize = 0;
        assert(all.skip(0) =~= all);
        assert(frame_views(frames@) + frames_in(all) =~= frames_in(all));
        while self.pending.len() - pos >= FRAME_SIZE
            invariant
                self.pending@ == all,
                pos <= all.len(),
                frame_views(frames@) + frames_in(all.skip(pos as int)) == frames_in(all),
                remainder(all.skip(pos as int)) == remainder(all),
            decreases all.len() - pos,
        {
            let ghost rest = all.skip(pos as int);
            let ghost before = frame_views(frames@);
            let record = vstd::slice::slice_subrange(&self.pending, pos, self.pending.len());
            assert(record@ =~= rest);
            match decode(record) {
                Ok((frame, consumed)) => {
                    frames.push(frame);
                    assert(frame_views(frames@) =~= before.push(decoded(rest)));
                    assert(rest.skip(FRAME_SIZE as int) =~= all.skip(pos + consumed));
                    assert(frame_views(frames@) + frames_in(all.skip(pos + consumed)) =~= before
                        + frames_in(rest));
                    pos = pos + consumed;
                },
                Err(_) => {
                    assert(false);
                    return frames;
                },
            }
        }
        let rest = vstd::slice::slice_to_vec(
            vstd::slice::slice_subrange(&self.pending, pos, self.pending.len()),
        );
        assert(rest@ =~= all.skip(pos as int));
        assert(frame_views(frames@) =~= frames_in(all));
        self.pending = rest;
        frames
    }
}

impl Default for FrameAssembler {
    fn default() -> (r: Self)
        ensures
            r@ == Seq::<u8>::empty(),
    {
        Self::new()
    }
}

/// Writes the records of frames one after another, to be sent in one piece.
pub fn encode_batch(frames: &[AnyCanFrame]) -> (r: Vec<u8>)
    ensures
        r@ == records(frame_views(frames@)),
{
    let mut buf: Vec<u8> = Vec::new();
    let ghost all = frame_views(frames@);
    let mut i: usize = 0;
    assert(all.skip(0) =~= all);
    assert(buf@ + records(all) =~= records(all));
    while i < frames.len()
        invariant
            i <= frames@.len(),
            all == frame_views(frames@),
            buf@ + records(all.skip(i as int)) == records(all),
        decreases frames@.len() - i,
    {
        let ghost rest = all.skip(i as int);
        let ghost before = buf@;
        let bytes = encode(&frames[i]);
        put_bytes(&mut buf, &bytes);
        assert(rest.drop_first() =~= all.skip(i + 1));
        assert(buf@ + records(all.skip(i + 1)) =~= before + records(rest));
        i = i + 1;
    }
    assert(records(all.skip(i as int)) =~= Seq::<u8>::empty());
    assert(buf@ + Seq::<u8>::empty() =~= buf@);
    buf
}

/// Data that arrives in two pieces gives the frames that it gives in one.
pub proof fn pieces_do_not_matter(a: Seq<u8>, b: Seq<u8>)
    ensures
        frames_in(a) + frames_in(remainder(a) + b) == frames_in(a + b),
        remainder(remainder(a) + b) == remainder(a + b),
    decreases a.len(),
{
    if a.len() < FRAME_SIZE {
        assert(frames_in(a) + frames_in(a + b) =~= frames_in(a + b));
    } else {
        let rest = a.skip(FRAME_SIZE as int);
        pieces_do_not_matter(rest, b);
        assert((a + b).skip(FRAME_SIZE as int) =~= rest + b);
        decoded_looks_no_further(a, a + b);
        assert(frames_in(a) + frames_in(remainder(a) + b) =~= seq![decoded(a)] + (frames_in(rest)
            + frames_in(remainder(rest) + b)));
    }
}

proof fn decoded_looks_no_further(s: Seq<u8>, t: Seq<u8>)
    requires
        s.len() >= FRAME_SIZE,
        t.len() >= FRAME_SIZE,
        forall|i: int| 0 <= i < FRAME_SIZE ==> s[i] == t[i],
    ensures
        decoded(s) == decoded(t),
{
    let len = if s[4] <= 64 {
        s[4] as int
    } else {
        64
    };
    assert(s.subrange(8, 8 + len) =~= t.subrange(8, 8 + len));
}

/// Frames that are written one after another are put together again, in order.
pub proof fn frames_come_through(frames: Seq<AnyFrame>)
    requires
        forall|i: int| 0 <= i < frames.len() ==> travels(#[trigger] frames[i]),
    ensures
        frames_in(records(frames)) == frames,
        remainder(records(frames)) == Seq::<u8>::empty(),
    decreases frames.len(),
{
    if frames.len() > 0 {
        let rest = frames.drop_first();
        let s = records(frames);
        assert(forall|i: int| 0 <= i < rest.len() ==> rest[i] == frames[i + 1]);
        frames_come_through(rest);
        assert(travels(frames[0]));
        encoded_len(frames[0]);
        decodes_what_was_encoded(frames[0], records(rest));
        assert(s.skip(FRAME_SIZE as int) =~= records(rest));
        assert(frames =~= seq![frames[0]] + rest);
    } else {
        assert(frames =~= Seq::empty());
    }
}

/// "No buffer space available": the transmit queue of the interface is full.
pub const ENOBUFS: i32 = 105;

/// Pause before a frame is tried again, in microseconds.
pub const WRITE_PAUSE_US: u64 = 100;

/// What to do after a write failed.
#[derive(Debug, Clone, Copy, PartialEq, Eq, Structural)]
pub enum WriteRetry {
    /// Try again after this many microseconds.
    Again { pause_us: u64 },
    /// Drop the frame.
    Drop,
}

/// Decides on a failed write; `attempt` counts from 0. A full queue is given three more
/// attempts, any other error none.
pub fn write_failed(os_error: Option<i32>, attempt: u32) -> (r: WriteRetry)
    ensures
        r == (if os_error == Some(105i32) && attempt < 3 {
            WriteRetry::Again { pause_us: 100 }
        } else {
            WriteRetry::Drop
        }),
{
    match os_error {
        Some(code) => if code == ENOBUFS && attempt < 3 {
            WriteRetry::Again { pause_us: WRITE_PAUSE_US }
        } else {
            WriteRetry::Drop
        },
        None => WriteRetry::Drop,
    }
}

/// What to do after a read brought no frame.
#[derive(Debug, Clone, Copy, PartialEq, Eq, Structural)]
pub enum ReadRetry {
    /// Nothing was there: read on.
    Now,
    /// Read on after this many milliseconds.
    After { pause_ms: u64 },
}

/// Decides on a read that brought no frame.
pub fn read_failed(would_block: bool, timed_out: bool) -> (r: ReadRetry)
    ensures
        r == (if would_block || timed_out {
            ReadRetry::Now
        } else {
            ReadRetry::After { pause_ms: 10 }
        }),
{
    if would_block || timed_out {
        ReadRetry::Now
    } else {
        ReadRetry::After { pause_ms: 10 }
    }
}

/// What one line of the description of an interface says of the bus: nothing (`None`), or the
/// answer to the question, which may be that no state is named (`Some(None)`).
pub open spec fn line_state(line: Seq<char>) -> Option<Option<Seq<char>>> {
    let t = trim(line);
    if starts_with(t, "can "@) {
        let rest = t.skip("can "@.len() as int);
        match find(rest, "state "@, 0) {
            Some(pos) => Some(first_word(rest.skip(pos + "state "@.len()))),
            None => None,
        }
    } else {
        None
    }
}

/// The bus state that the description of an interface names: the first line that has one.
pub open spec fn named_state(text: Seq<char>) -> Option<Seq<char>>
    decreases text.len(),
{
    match find(text, seq!['\n'], 0) {
        Some(end) => if end < 0 || end >= text.len() {
            None
        } else {
            match line_state(text.take(end)) {
                Some(answer) => answer,
                None => named_state(text.skip(end + 1)),
            }
        },
        None => match line_state(text) {
            Some(answer) => answer,
            None => None,
        },
    }
}

fn state_in_line(line: &[char]) -> (r: Option<Option<String>>)
    ensures
        match r {
            Some(Some(s)) => line_state(line@) == Some(Some(s@)),
            Some(None) => line_state(line@) == Some(None::<Seq<char>>),
            None => line_state(line@) is None,
        },
{
    let t = trimmed(line);
    if !has_prefix(t, "can ") {
        return None;
    }
    proof {
        reveal_strlit("can ");
        reveal_strlit("state ");
    }
    let rest = vstd::slice::slice_subrange(t, 4, t.len());
    assert(rest@ =~= t@.skip("can "@.len() as int));
    match find_from(rest, "state ", 0) {
        Some(pos) => {
            let after = vstd::slice::slice_subrange(rest, pos + 6, rest.len());
            assert(after@ =~= rest@.skip(pos + "state "@.len()));
            Some(word(after))
        },
        None => None,
    }
}

fn find_newline(s: &[char], from: usize) -> (r: Option<usize>)
    requires
        from <= s@.len(),
    ensures
        match r {
            Some(i) => from <= i < s@.len() && find(s@, seq!['\n'], from as int) == Some(i as int),
            None => find(s@, seq!['\n'], from as int) is None,
        },
{
    let mut i: usize = from;
    while i < s.len()
        invariant
            from <= i <= s@.len(),
            find(s@, seq!['\n'], from as int) == find(s@, seq!['\n'], i as int),
        decreases s@.len() - i,
    {
        assert(s@.subrange(i as int, i + 1) =~= seq![s@[i as int]]);
        if s[i] == '\n' {
            return Some(i);
        }
        assert(s@.subrange(i as int, i + 1)[0] != seq!['\n'][0]);
        i = i + 1;
    }
    None
}

/// Reads the bus state (such as "ERROR-ACTIVE" or "BUS-OFF") out of the detailed description
/// of an interface.
pub fn parse_bus_state(text: &str) -> (r: Option<String>)
    ensures
        match r {
            Some(s) => named_state(text@) == Some(s@),
            None => named_state(text@) is None,
        },
{
    let chars = chars_of(text);
    let all = chars.as_slice();
    let mut pos: usize = 0;
    assert(all@.skip(0) =~= all@);
    loop
        invariant
            pos <= all@.len(),
            all@ == text@,
            named_state(text@) == named_state(all@.skip(pos as int)),
        decreases all@.len() - pos,
    {
        let rest = vstd::slice::slice_subrange(all, pos, all.len());
        assert(rest@ =~= all@.skip(pos as int));
        match find_newline(rest, 0) {
            Some(end) => {
                let line = vstd::slice::slice_subrange(rest, 0, end);
                assert(line@ =~= rest@.take(end as int));
                if let Some(answer) = state_in_line(line) {
                    return answer;
                }
                assert(rest@.skip(end + 1) =~= all@.skip(pos + end + 1));
                pos = pos + end + 1;
            },
            None => {
                return match state_in_line(rest) {
                    Some(answer) => answer,
                    None => None,
                };
            },
        }
    }
}

/// `s` in upper case, as the standard library maps it.
pub uninterp spec fn uppercase(s: Seq<char>) -> Seq<char>;

/// `str::to_uppercase`: the upper case of `s` is a function of `s` alone.
#[verifier::external_body]
fn to_upper(s: &str) -> (r: String)
    ensures
        r@ == uppercase(s@),
{
    s.to_uppercase()
}

/// Reads the bus state out of the interface's state file.
pub fn sysfs_bus_state(text: &str) -> (r: String)
    ensures
        r@ == uppercase(trim(text@)),
{
    let chars = chars_of(text);
    let t = string_of(trimmed(&chars));
    to_upper(&t)
}

/// How well a CAN bus is.
#[derive(Debug, Clone, Copy, PartialEq, Eq, Structural)]
pub enum BusHealth {
    /// The bus works.
    Healthy,
    /// The interface may be down, or nothing else is on the bus.
    Degraded,
    /// Its state could not be read: carry on.
    Unknown,
}

/// Judges a bus by its state. Only "ERROR-ACTIVE" is healthy.
pub fn bus_health(state: Option<&str>) -> (r: BusHealth)
    ensures
        r == (match state {
            Some(s) => if s@ == "ERROR-ACTIVE"@ {
                BusHealth::Healthy
            } else {
                BusHealth::Degraded
            },
            None => BusHealth::Unknown,
        }),
{
    match state {
        Some(s) => if same(s, "ERROR-ACTIVE") {
            BusHealth::Healthy
        } else {
            BusHealth::Degraded
        },
        None => BusHealth::Unknown,
    }
}

/// How a CAN server uses a relay: not at all without a relay URL; under
/// `anon/xoq-can-<interface>` unless a path is given.
pub fn can_moq_config(
    interface: &str,
    relay: Option<&str>,
    path: Option<&str>,
    insecure: bool,
) -> (r: Option<MoqConfig>)
    ensures
        match r {
            Some(config) => {
                &&& relay matches Some(u) && config.relay@ == u@
                &&& config.path@ == (match path {
                    Some(p) => p@,
                    None => "anon/xoq-can-"@ + interface@,
                })
                &&& config.insecure == insecure
                &&& config.state_subpath@ == "state"@
                &&& config.command_subpath@ == "commands"@
                &&& config.track_name@ == "can"@
            },
            None => relay is None,
        },
{
    match relay {
        Some(u) => {
            let full = match path {
                Some(p) => p.to_owned(),
                None => joined2("anon/xoq-can-", interface),
            };
            Some(
                MoqConfig {
                    relay: u.to_owned(),
                    path: full,
                    insecure,
                    state_subpath: "state".to_owned(),
                    command_subpath: "commands".to_owned(),
                    track_name: "can".to_owned(),
                },
            )
        },
        None => None,
    }
}

/// The state reads back: the word behind `state ` in a line that begins with `can `, whatever white
/// space stands around the line.
pub proof fn state_reads_back(
    indent: Seq<char>,
    between: Seq<char>,
    state: Seq<char>,
    rest: Seq<char>,
    end: Seq<char>,
)
    requires
        forall|i: int| 0 <= i < indent.len() ==> is_space(#[trigger] indent[i]),
        forall|i: int| 0 <= i < end.len() ==> is_space(#[trigger] end[i]),
        forall|i: int| 0 <= i < state.len() ==> !is_space(#[trigger] state[i]),
        state.len() > 0,
        rest.len() > 0 ==> is_space(rest[0]) && !is_space(rest.last()),
        find(between + "state "@ + state + rest, "state "@, 0) == Some(between.len() as int),
    ensures
        line_state(
            indent + (seq!['c', 'a', 'n', ' '] + between + "state "@ + state + rest) + end,
        ) == Some(Some(state)),
{
    reveal_strlit("can ");
    reveal_strlit("state ");
    assert("can "@ =~= seq!['c', 'a', 'n', ' ']);
    let text = seq!['c', 'a', 'n', ' '] + between + "state "@ + state + rest;
    if rest.len() > 0 {
        assert(text.last() == rest.last());
    } else {
        assert(text.last() == state[state.len() - 1]);
    }
    assert(text[0] == 'c');
    trimming_gives_the_text_back(indent, text, end);
    let tail = between + "state "@ + state + rest;
    assert(text.take("can "@.len() as int) =~= "can "@);
    assert(text.skip("can "@.len() as int) =~= tail);
    assert(tail.skip(between.len() as int + "state "@.len()) =~= Seq::<char>::empty() + state + rest);
    first_word_reads_back(Seq::empty(), state, rest);
}

/// A line that does not begin with `can ` names no state.
pub proof fn other_lines_name_no_state(line: Seq<char>)
    requires
        !starts_with(trim(line), seq!['c', 'a', 'n', ' ']),
    ensures
        line_state(line) is None,
{
    reveal_strlit("can ");
    assert("can "@ =~= seq!['c', 'a', 'n', ' ']);
}

/// Of the lines of a text the first one that names a state counts; those that name none are passed
/// over.
pub proof fn first_named_state_counts(line: Seq<char>, rest: Seq<char>)
    requires
        !line.contains('\n'),
    ensures
        line_state(line) is Some ==> named_state(line + seq!['\n'] + rest) == line_state(line)->0,
        line_state(line) is Some ==> named_state(line) == line_state(line)->0,
        line_state(line) is None ==> named_state(line + seq!['\n'] + rest) == named_state(rest),
        line_state(line) is None ==> named_state(line) is None,
{
    let text = line + seq!['\n'] + rest;
    let n = line.len() as int;
    assert forall|i: int| 0 <= i < n implies #[trigger] text[i] != '\n' by {
        assert(text[i] == line[i]);
    }
    assert(text[n] == '\n');
    character_is_found(text, '\n', 0, n);
    assert(text.take(n) =~= line);
    assert(text.skip(n + 1) =~= rest);
    found_pattern_is_there(line, seq!['\n'], 0);
    if find(line, seq!['\n'], 0) is Some {
        let i = find(line, seq!['\n'], 0)->0;
        assert(line.subrange(i, i + 1)[0] == '\n');
        assert(line[i] == '\n');
    }
}

} // verus!
