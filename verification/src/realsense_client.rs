//! Depth camera client: what the frames of a remote camera hold.

use crate::cmaf::demux::{is_kind, kind_is};
use crate::cmaf::layout::{mp4_box, tag};
use crate::endian::{
    be32, be32_at, be32_round_trip, get_be32, get_le64, le64, le64_at, le64_read, put_bytes,
};
use crate::text::{
    chars_of, find, find_from, is_space, leading_space, leading_space_is_cut_off, opt_text, string_of,
    trim_start, utf8_text,
};
use vstd::prelude::*;
use vstd::slice::slice_subrange;
use vstd::string::StringExecFns;
use vstd::utf8::{decode_utf8, valid_utf8};

verus! {

/// The timestamp in front of a frame, and the frame. Fewer than 8 bytes have none.
pub open spec fn stamped(s: Seq<u8>) -> (u64, Seq<u8>) {
    if s.len() < 8 {
        (0, s)
    } else {
        (le64_at(s, 0) as u64, s.skip(8))
    }
}

/// Parse the 8-byte LE timestamp prefix from stamped data.
pub fn parse_stamped_data(data: &[u8]) -> (r: (u64, &[u8]))
    ensures
        (r.0, r.1@) == stamped(data@),
{
    if data.len() < 8 {
        return (0, data);
    }
    let ms: u64 = get_le64(data, 0);
    let rest = slice_subrange(data, 8, data.len());
    assert(rest@ =~= data@.skip(8));
    (ms, rest)
}

/// A frame behind its timestamp is read back with it.
pub proof fn stamp_reads_back(ms: u64, frame: Seq<u8>)
    ensures
        stamped(le64(ms as int) + frame) == (ms, frame),
{
    let s = le64(ms as int) + frame;
    assert(s.subrange(0, 8) =~= le64(ms as int));
    le64_read(s, 0, ms as int);
    assert(s.skip(8) =~= frame);
}

/// Whether every mdat box among the boxes of `s` is as long as its own header.
pub open spec fn obus_readable(s: Seq<u8>) -> bool
    decreases s.len(),
{
    if s.len() < 8 || be32_at(s, 0) <= 0 || be32_at(s, 0) > s.len() {
        true
    } else {
        (kind_is(s, 'm', 'd', 'a', 't') ==> be32_at(s, 0) >= 8) && obus_readable(
            s.skip(be32_at(s, 0)),
        )
    }
}

/// The contents of all mdat boxes, one after another. A box that is not all there ends the
/// search.
pub open spec fn obus(s: Seq<u8>) -> Seq<u8>
    decreases s.len(),
{
    if s.len() < 8 || be32_at(s, 0) <= 0 || be32_at(s, 0) > s.len() {
        Seq::empty()
    } else {
        let size = be32_at(s, 0);
        let rest = obus(s.skip(size));
        if kind_is(s, 'm', 'd', 'a', 't') {
            s.subrange(8, size) + rest
        } else {
            rest
        }
    }
}

fn read_obus(data: &[u8]) -> (r: Option<Vec<u8>>)
    ensures
        match r {
            Some(out) => obus_readable(data@) && out@ == obus(data@),
            None => !obus_readable(data@),
        },
{
    let mut result: Vec<u8> = Vec::new();
    let mut pos: usize = 0;
    assert(data@.skip(0) =~= data@);
    assert(result@ + obus(data@) =~= obus(data@));
    while data.len() - pos >= 8
        invariant
            data.len() == data@.len(),
            pos <= data@.len(),
            result@ + obus(data@.skip(pos as int)) == obus(data@),
            obus_readable(data@.skip(pos as int)) == obus_readable(data@),
        decreases data@.len() - pos,
    {
        let ghost rest = data@.skip(pos as int);
        let size: u32 = get_be32(data, pos);
        assert(be32_at(rest, 0) == size) by {
            assert(rest[0] == data@[pos as int] && rest[1] == data@[pos + 1] && rest[2] == data@[pos + 2]
                && rest[3] == data@[pos + 3]);
        }
        if size == 0 || size as u64 > (data.len() - pos) as u64 {
            assert(result@ + Seq::<u8>::empty() =~= result@);
            return Some(result);
        }
        let size: usize = size as usize;
        if is_kind(data, pos, 'm', 'd', 'a', 't') {
            if size < 8 {
                return None;
            }
            let ghost before = result@;
            let content = slice_subrange(data, pos + 8, pos + size);
            assert(content@ =~= rest.subrange(8, size as int));
            put_bytes(&mut result, content);
            assert(before + (content@ + obus(rest.skip(size as int))) =~= result@ + obus(
                rest.skip(size as int),
            ));
        }
        assert(rest.skip(size as int) =~= data@.skip(pos + size));
        pos = pos + size;
    }
    assert(result@ + Seq::<u8>::empty() =~= result@);
    Some(result)
}

/// Whether AV1 data can be extracted.
pub fn av1_readable(data: &[u8]) -> (r: bool)
    ensures
        r == obus_readable(data@),
{
    read_obus(data).is_some()
}

/// Extract raw AV1 OBU data from CMAF fMP4 (init + media segments).
pub fn extract_av1_from_cmaf(data: &[u8]) -> (r: Vec<u8>)
    requires
        obus_readable(data@),
    ensures
        r@ == obus(data@),
{
    match read_obus(data) {
        Some(out) => out,
        None => Vec::new(),
    }
}

/// Of whole boxes the content of an mdat box is extracted, and nothing of others.
pub proof fn whole_box_is_extracted(
    a: char,
    b: char,
    c: char,
    d: char,
    content: Seq<u8>,
    rest: Seq<u8>,
)
    requires
        8 + content.len() < 0x1_0000_0000,
    ensures
        obus(mp4_box(tag(a, b, c, d), content) + rest) == (if kind_is(
            mp4_box(tag(a, b, c, d), content),
            'm',
            'd',
            'a',
            't',
        ) {
            content + obus(rest)
        } else {
            obus(rest)
        }),
        obus_readable(mp4_box(tag(a, b, c, d), content) + rest) == obus_readable(rest),
{
    let one = mp4_box(tag(a, b, c, d), content);
    let s = one + rest;
    let size = 8 + content.len() as int;
    be32_round_trip(size);
    assert(be32_at(s, 0) == be32_at(be32(size), 0));
    assert(s.skip(size) =~= rest);
    assert(s.subrange(8, size) =~= content);
    assert(s[4] == one[4] && s[5] == one[5] && s[6] == one[6] && s[7] == one[7]);
}

/// Where the first comma, closing brace or blank stands, at or after `from`.
pub open spec fn number_end(s: Seq<char>, from: int) -> Option<int>
    decreases s.len() - from,
{
    if from < 0 || from >= s.len() {
        None
    } else if s[from] == ',' || s[from] == '}' || s[from] == ' ' {
        Some(from)
    } else {
        number_end(s, from + 1)
    }
}

/// What stands behind the first `"key":`, up to a comma, a closing brace or a blank.
pub open spec fn number_text(json: Seq<char>, key: Seq<char>) -> Option<Seq<char>> {
    let pattern = "\""@ + key + "\":"@;
    match find(json, pattern, 0) {
        Some(i) => {
            let rest = trim_start(json.skip(i + pattern.len()));
            match number_end(rest, 0) {
                Some(end) => Some(rest.take(end)),
                None => None,
            }
        },
        None => None,
    }
}

/// Finds the text of a number in the camera's metadata.
pub fn find_number(json: &str, key: &str) -> (r: Option<String>)
    ensures
        match r {
            Some(t) => number_text(json@, key@) == Some(t@),
            None => number_text(json@, key@) is None,
        },
{
    let chars = chars_of(json);
    let mut pattern = "\"".to_owned();
    pattern.append(key);
    pattern.append("\":");
    let len: usize = chars_of(&pattern).len();
    let start: usize = match find_from(&chars, &pattern, 0) {
        Some(i) => i + len,
        None => return None,
    };
    let after = slice_subrange(chars.as_slice(), start, chars.len());
    assert(after@ =~= json@.skip(start as int));
    let rest = slice_subrange(after, leading_space(after), after.len());
    assert(rest@ =~= trim_start(after@));
    let mut end: usize = 0;
    while end < rest.len()
        invariant
            end <= rest@.len(),
            number_end(rest@, 0) == number_end(rest@, end as int),
            number_text(json@, key@) == (match number_end(rest@, 0) {
                Some(end) => Some(rest@.take(end)),
                None => None,
            }),
        decreases rest@.len() - end,
    {
        if rest[end] == ',' || rest[end] == '}' || rest[end] == ' ' {
            let text = slice_subrange(rest, 0, end);
            assert(text@ =~= rest@.take(end as int));
            return Some(string_of(text));
        }
        end = end + 1;
    }
    None
}

/// The numbers in a camera's metadata, as text: focal lengths, principal point, size and depth
/// shift.
#[derive(Debug)]
pub struct IntrinsicsText {
    pub fx: String,
    pub fy: String,
    pub ppx: String,
    pub ppy: String,
    pub width: String,
    pub height: String,
    pub depth_shift: Option<String>,
}

/// Whether the numbers are those of the metadata.
pub open spec fn numbers_of(json: Seq<char>, t: IntrinsicsText) -> bool {
    &&& number_text(json, "fx"@) == Some(t.fx@)
    &&& number_text(json, "fy"@) == Some(t.fy@)
    &&& number_text(json, "ppx"@) == Some(t.ppx@)
    &&& number_text(json, "ppy"@) == Some(t.ppy@)
    &&& number_text(json, "width"@) == Some(t.width@)
    &&& number_text(json, "height"@) == Some(t.height@)
    &&& opt_text(t.depth_shift) == number_text(json, "depth_shift"@)
}

/// Whether a number but the depth shift is missing in the metadata.
pub open spec fn number_missing(json: Seq<char>) -> bool {
    ||| number_text(json, "fx"@) is None
    ||| number_text(json, "fy"@) is None
    ||| number_text(json, "ppx"@) is None
    ||| number_text(json, "ppy"@) is None
    ||| number_text(json, "width"@) is None
    ||| number_text(json, "height"@) is None
}

/// Finds the numbers in what the metadata track brings. Bytes that are not UTF-8 have none.
pub fn find_intrinsics_in(data: &[u8]) -> (r: Option<IntrinsicsText>)
    ensures
        match r {
            Some(t) => valid_utf8(data@) && numbers_of(decode_utf8(data@), t),
            None => !valid_utf8(data@) || number_missing(decode_utf8(data@)),
        },
{
    match utf8_text(data) {
        Some(json) => find_intrinsics(&json),
        None => None,
    }
}

/// Finds the numbers in a camera's metadata. All but the depth shift have to be there.
pub fn find_intrinsics(json: &str) -> (r: Option<IntrinsicsText>)
    ensures
        match r {
            Some(t) => numbers_of(json@, t),
            None => number_missing(json@),
        },
{
    let fx = match find_number(json, "fx") {
        Some(t) => t,
        None => return None,
    };
    let fy = match find_number(json, "fy") {
        Some(t) => t,
        None => return None,
    };
    let ppx = match find_number(json, "ppx") {
        Some(t) => t,
        None => return None,
    };
    let ppy = match find_number(json, "ppy") {
        Some(t) => t,
        None => return None,
    };
    let width = match find_number(json, "width") {
        Some(t) => t,
        None => return None,
    };
    let height = match find_number(json, "height") {
        Some(t) => t,
        None => return None,
    };
    let depth_shift = find_number(json, "depth_shift");
    Some(IntrinsicsText { fx, fy, ppx, ppy, width, height, depth_shift })
}

/// What follows a failed read.
#[derive(Debug, Clone, Copy, PartialEq, Eq, Structural)]
pub enum AfterFailure {
    /// Connect anew and read again.
    Reconnect,
    /// Return the error.
    Fail,
}

/// Whether anything has been read yet: only before that, and only once, is a failed read tried
/// again.
#[derive(Debug, Clone, Copy, PartialEq, Eq, Structural)]
pub struct ReadPolicy {
    pub has_read: bool,
}

impl ReadPolicy {
    /// Nothing has been read.
    pub fn new() -> (r: Self)
        ensures
            !r.has_read,
    {
        ReadPolicy { has_read: false }
    }

    /// Notes that frames were read.
    pub fn succeeded(&mut self)
        ensures
            final(self).has_read,
    {
        self.has_read = true;
    }

    /// Decides what follows a failed read.
    pub fn failed(&self) -> (r: AfterFailure)
        ensures
            r == (if self.has_read {
                AfterFailure::Fail
            } else {
                AfterFailure::Reconnect
            }),
    {
        if self.has_read {
            AfterFailure::Fail
        } else {
            AfterFailure::Reconnect
        }
    }
}

/// What comes in while a color frame and a depth frame are read.
#[derive(Debug)]
pub enum PairEvent {
    /// Data of the track that is read.
    Data(Vec<u8>),
    /// The track has ended.
    Ended,
    /// The decoder has made a frame of what it was given, or needs more.
    Decoded { frame: bool },
}

/// What follows.
#[derive(Debug)]
pub enum PairStep {
    /// Read the video track.
    ReadColor,
    /// Read the depth track.
    ReadDepth,
    /// Hand this to the decoder of the track.
    Decode(Vec<u8>),
    /// Both frames are there.
    Done { timestamp_ms: u64 },
    /// Report that the video track has ended.
    VideoEnded,
    /// Report that the depth track has ended.
    DepthEnded,
}

/// Reads a color frame, then a depth frame.
#[derive(Debug, Clone, Copy, PartialEq, Eq, Structural)]
pub struct PairReader {
    /// Whether the color frame is there.
    pub has_color: bool,
    /// The time of the color frame.
    pub timestamp_ms: u64,
}

impl PairReader {
    /// No frame is there yet.
    pub fn new() -> (r: Self)
        ensures
            r == (PairReader { has_color: false, timestamp_ms: 0 }),
    {
        PairReader { has_color: false, timestamp_ms: 0 }
    }

    /// Whether the AV1 data of an event can be extracted.
    pub open spec fn accepts(self, event: PairEvent) -> bool {
        match event {
            PairEvent::Data(data) => obus_readable(stamped(data@).1),
            _ => true,
        }
    }

    /// The state after an event. The pair has the time of the color frame.
    pub open spec fn after(self, event: PairEvent) -> PairReader {
        match event {
            PairEvent::Data(data) => if self.has_color {
                self
            } else {
                PairReader { timestamp_ms: stamped(data@).0, ..self }
            },
            PairEvent::Ended => self,
            PairEvent::Decoded { frame } => PairReader {
                has_color: self.has_color || frame,
                ..self
            },
        }
    }

    /// Whether a step is what follows an event. Data without AV1 is passed over.
    pub open spec fn answers(self, event: PairEvent, step: PairStep) -> bool {
        let read = if self.has_color {
            PairStep::ReadDepth
        } else {
            PairStep::ReadColor
        };
        match event {
            PairEvent::Data(data) => {
                let content = obus(stamped(data@).1);
                if content.len() == 0 {
                    step == read
                } else {
                    step matches PairStep::Decode(av1) && av1@ == content
                }
            },
            PairEvent::Ended => step == (if self.has_color {
                PairStep::DepthEnded
            } else {
                PairStep::VideoEnded
            }),
            PairEvent::Decoded { frame } => step == (if !frame {
                read
            } else if self.has_color {
                PairStep::Done { timestamp_ms: self.timestamp_ms }
            } else {
                PairStep::ReadDepth
            }),
        }
    }

    /// A color frame and then a depth frame make a pair, which has the time that stood in front of
    /// the color frame's data.
    pub proof fn pair_has_the_time_of_its_color(
        self,
        color: Vec<u8>,
        depth: Vec<u8>,
        color_ms: u64,
        rest: Seq<u8>,
        step: PairStep,
    )
        requires
            self == (PairReader { has_color: false, timestamp_ms: 0 }),
            color@ == le64(color_ms as int) + rest,
            self.after(PairEvent::Data(color)).after(PairEvent::Decoded { frame: true }).after(
                PairEvent::Data(depth),
            ).answers(PairEvent::Decoded { frame: true }, step),
        ensures
            step == (PairStep::Done { timestamp_ms: color_ms }),
    {
        stamp_reads_back(color_ms, rest);
    }

    fn read(&self) -> (r: PairStep)
        ensures
            r == (if self.has_color {
                PairStep::ReadDepth
            } else {
                PairStep::ReadColor
            }),
    {
        if self.has_color {
            PairStep::ReadDepth
        } else {
            PairStep::ReadColor
        }
    }

    /// Takes in an event and says what follows.
    pub fn step(&mut self, event: PairEvent) -> (r: PairStep)
        requires
            old(self).accepts(event),
        ensures
            *final(self) == old(self).after(event),
            old(self).answers(event, r),
    {
        match event {
            PairEvent::Data(data) => {
                let (timestamp_ms, payload) = parse_stamped_data(&data);
                if !self.has_color {
                    self.timestamp_ms = timestamp_ms;
                }
                let av1 = extract_av1_from_cmaf(payload);
                if av1.len() == 0 {
                    self.read()
                } else {
                    PairStep::Decode(av1)
                }
            },
            PairEvent::Ended => if self.has_color {
                PairStep::DepthEnded
            } else {
                PairStep::VideoEnded
            },
            PairEvent::Decoded { frame } => {
                if !frame {
                    self.read()
                } else if self.has_color {
                    PairStep::Done { timestamp_ms: self.timestamp_ms }
                } else {
                    self.has_color = true;
                    PairStep::ReadDepth
                }
            },
        }
    }
}

proof fn number_ends_at(s: Seq<char>, from: int, end: int)
    requires
        0 <= from <= end < s.len(),
        s[end] == ',' || s[end] == '}' || s[end] == ' ',
        forall|i: int| from <= i < end ==> #[trigger] s[i] != ',' && s[i] != '}' && s[i] != ' ',
    ensures
        number_end(s, from) == Some(end),
    decreases end - from,
{
    if from < end {
        number_ends_at(s, from + 1, end);
    }
}

/// A number reads back: what stands behind the first `"key":`, with or without white space, up to a
/// comma, a brace or a blank.
pub proof fn number_reads_back(
    before: Seq<char>,
    key: Seq<char>,
    space: Seq<char>,
    number: Seq<char>,
    end: char,
    rest: Seq<char>,
)
    requires
        forall|i: int| 0 <= i < space.len() ==> is_space(#[trigger] space[i]),
        number.len() > 0,
        !is_space(number[0]),
        !number.contains(',') && !number.contains('}') && !number.contains(' '),
        end == ',' || end == '}' || end == ' ',
        ({
            let pattern = seq!['"'] + key + seq!['"', ':'];
            find(before + pattern + space + number + seq![end] + rest, pattern, 0) == Some(
                before.len() as int,
            )
        }),
    ensures
        number_text(
            before + (seq!['"'] + key + seq!['"', ':']) + space + number + seq![end] + rest,
            key,
        ) == Some(number),
{
    reveal_strlit("\"");
    reveal_strlit("\":");
    let pattern = seq!['"'] + key + seq!['"', ':'];
    assert("\""@ =~= seq!['"']);
    assert("\":"@ =~= seq!['"', ':']);
    let json = before + pattern + space + number + seq![end] + rest;
    let tail = json.skip(before.len() as int + pattern.len());
    let text = number + seq![end] + rest;
    assert(tail =~= space + text);
    leading_space_is_cut_off(tail);
    let cut = tail.len() - trim_start(tail).len();
    if cut < space.len() {
        assert(trim_start(tail)[0] == space[cut]);
    }
    if cut > space.len() {
        assert(tail[space.len() as int] == number[0]);
    }
    assert(trim_start(tail) =~= text);
    let n = number.len() as int;
    assert forall|i: int| 0 <= i < n implies #[trigger] text[i] != ',' && text[i] != '}' && text[i] != ' ' by {
        assert(text[i] == number[i]);
    }
    number_ends_at(text, 0, n);
    assert(text.take(n) =~= number);
}

} // verus!
