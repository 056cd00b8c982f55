//! Fields of a JSON text, found by the places of quotes and brackets.

use crate::text::{
    character_is_found, chars_of, find, find_from, has_prefix, is_space, leading_space,
    leading_space_is_cut_off, starts_with, string_of, texts, trim_start,
};
use vstd::prelude::*;
use vstd::string::StringExecFns;

verus! {

/// `key` in double quotes.
pub open spec fn quoted(key: Seq<char>) -> Seq<char> {
    "\""@ + key + "\""@
}

/// Where the text after the first `"key"` begins.
pub open spec fn after_key(s: Seq<char>, key: Seq<char>) -> Option<int> {
    match find(s, quoted(key), 0) {
        Some(i) => Some(i + quoted(key).len()),
        None => None,
    }
}

/// The text between the first two quotes after `"key"`.
pub open spec fn string_field(s: Seq<char>, key: Seq<char>) -> Option<Seq<char>> {
    match after_key(s, key) {
        Some(from) => match find(s, "\""@, from) {
            Some(q1) => match find(s, "\""@, q1 + 1) {
                Some(q2) => Some(s.subrange(q1 + 1, q2)),
                None => None,
            },
            None => None,
        },
        None => None,
    }
}

/// Whether `true` or `false` stands behind the first colon after `"key"`.
pub open spec fn bool_field(s: Seq<char>, key: Seq<char>) -> Option<bool> {
    match after_key(s, key) {
        Some(from) => match find(s, ":"@, from) {
            Some(colon) => {
                let rest = trim_start(s.skip(colon + 1));
                if starts_with(rest, "true"@) {
                    Some(true)
                } else if starts_with(rest, "false"@) {
                    Some(false)
                } else {
                    None
                }
            },
            None => None,
        },
        None => None,
    }
}

/// How many more brackets are open than closed after the first `n` characters.
pub open spec fn depth_after(s: Seq<char>, open: char, close: char, n: int) -> int
    decreases n,
{
    if n <= 0 {
        0
    } else {
        depth_after(s, open, close, n - 1) + (if s[n - 1] == open {
            1int
        } else {
            0int
        }) - (if s[n - 1] == close {
            1int
        } else {
            0int
        })
    }
}

/// Whether the character at `i` closes what was opened first.
pub open spec fn closes_at(s: Seq<char>, open: char, close: char, i: int) -> bool {
    0 <= i < s.len() && s[i] == close && depth_after(s, open, close, i + 1) == 0
}

/// The objects at the top level of the first `n` characters.
pub open spec fn objects(s: Seq<char>, n: int) -> Seq<Seq<char>>
    decreases n,
{
    if n <= 0 {
        Seq::empty()
    } else if closes_at(s, '{', '}', n - 1) && last_start(s, n) is Some {
        objects(s, n - 1).push(s.subrange(last_start(s, n)->0, n))
    } else {
        objects(s, n - 1)
    }
}

/// Where, in the first `n` characters, an object at the top level begins last.
pub open spec fn last_start(s: Seq<char>, n: int) -> Option<int>
    decreases n,
{
    if n <= 0 {
        None
    } else if s[n - 1] == '{' && depth_after(s, '{', '}', n - 1) == 0 {
        Some(n - 1)
    } else {
        last_start(s, n - 1)
    }
}

/// The bracketed text that begins with the first `open` after `"key"`.
pub open spec fn bracketed(s: Seq<char>, key: Seq<char>, open: char, close: char) -> Option<
    Seq<char>,
> {
    match after_key(s, key) {
        Some(from) => match find(s, seq![open], from) {
            Some(start) => {
                let content = s.skip(start);
                match matching(content, open, close, 0) {
                    Some(end) => Some(content.take(end + 1)),
                    None => None,
                }
            },
            None => None,
        },
        None => None,
    }
}

/// The first place, at or after `from`, that closes what was opened first.
pub open spec fn matching(s: Seq<char>, open: char, close: char, from: int) -> Option<int>
    decreases s.len() - from,
{
    if from < 0 || from >= s.len() {
        None
    } else if closes_at(s, open, close, from) {
        Some(from)
    } else {
        matching(s, open, close, from + 1)
    }
}

fn key_end(s: &[char], key: &str) -> (r: Option<usize>)
    ensures
        match r {
            Some(n) => after_key(s@, key@) == Some(n as int) && n <= s@.len(),
            None => after_key(s@, key@) is None,
        },
{
    let mut pattern = "\"".to_owned();
    pattern.append(key);
    pattern.append("\"");
    assert(pattern@ =~= quoted(key@));
    let len: usize = chars_of(&pattern).len();
    match find_from(s, &pattern, 0) {
        Some(i) => Some(i + len),
        None => None,
    }
}

/// The string that follows the first `"key"`.
pub fn extract_string_field(s: &[char], key: &str) -> (r: Option<String>)
    ensures
        match r {
            Some(t) => string_field(s@, key@) == Some(t@),
            None => string_field(s@, key@) is None,
        },
{
    proof {
        reveal_strlit("\"");
    }
    let from: usize = match key_end(s, key) {
        Some(n) => n,
        None => return None,
    };
    let q1: usize = match find_from(s, "\"", from) {
        Some(i) => i,
        None => return None,
    };
    let q2: usize = match find_from(s, "\"", q1 + 1) {
        Some(i) => i,
        None => return None,
    };
    Some(string_of(vstd::slice::slice_subrange(s, q1 + 1, q2)))
}

/// The boolean that follows the first `"key"`.
pub fn extract_bool_field(s: &[char], key: &str) -> (r: Option<bool>)
    ensures
        r == bool_field(s@, key@),
{
    proof {
        reveal_strlit(":");
    }
    let from: usize = match key_end(s, key) {
        Some(n) => n,
        None => return None,
    };
    let colon: usize = match find_from(s, ":", from) {
        Some(i) => i,
        None => return None,
    };
    let after = vstd::slice::slice_subrange(s, colon + 1, s.len());
    assert(after@ =~= s@.skip(colon + 1));
    let rest = vstd::slice::slice_subrange(after, leading_space(after), after.len());
    assert(rest@ =~= trim_start(after@));
    if has_prefix(rest, "true") {
        Some(true)
    } else if has_prefix(rest, "false") {
        Some(false)
    } else {
        None
    }
}

proof fn depth_bounds(s: Seq<char>, open: char, close: char, n: int)
    requires
        n >= 0,
    ensures
        -n <= depth_after(s, open, close, n) <= n,
    decreases n,
{
    if n > 0 {
        depth_bounds(s, open, close, n - 1);
    }
}

/// Where the bracket that is opened first is closed.
pub fn find_matching_bracket(s: &[char], open: char, close: char) -> (r: Option<usize>)
    ensures
        match r {
            Some(i) => matching(s@, open, close, 0) == Some(i as int) && i < s@.len(),
            None => matching(s@, open, close, 0) is None,
        },
{
    let mut depth: i128 = 0;
    let mut i: usize = 0;
    while i < s.len()
        invariant
            i <= s@.len(),
            depth == depth_after(s@, open, close, i as int),
            matching(s@, open, close, 0) == matching(s@, open, close, i as int),
        decreases s@.len() - i,
    {
        proof {
            depth_bounds(s@, open, close, i as int);
        }
        if s[i] == open {
            depth = depth + 1;
        }
        if s[i] == close {
            depth = depth - 1;
            if depth == 0 {
                return Some(i);
            }
        }
        i = i + 1;
    }
    None
}

/// The objects of an array.
pub fn iter_objects(s: &[char]) -> (r: Vec<String>)
    ensures
        texts(r@) == objects(s@, s@.len() as int),
{
    let mut results: Vec<String> = Vec::new();
    let mut depth: i128 = 0;
    let mut start: Option<usize> = None;
    let mut i: usize = 0;
    assert(texts(results@) =~= objects(s@, 0));
    while i < s.len()
        invariant
            i <= s@.len(),
            depth == depth_after(s@, '{', '}', i as int),
            match start {
                Some(k) => last_start(s@, i as int) == Some(k as int) && k < i,
                None => last_start(s@, i as int) is None,
            },
            texts(results@) == objects(s@, i as int),
        decreases s@.len() - i,
    {
        proof {
            depth_bounds(s@, '{', '}', i as int);
        }
        let ghost before = results@;
        if s[i] == '{' {
            if depth == 0 {
                start = Some(i);
            }
            depth = depth + 1;
        } else if s[i] == '}' {
            depth = depth - 1;
            if depth == 0 {
                if let Some(k) = start {
                    let object = string_of(vstd::slice::slice_subrange(s, k, i + 1));
                    results.push(object);
                    assert(texts(results@) =~= texts(before).push(object@));
                }
            }
        }
        i = i + 1;
    }
    results
}

fn extract_bracketed(s: &[char], key: &str, open: char, close: char, opening: &str) -> (r: Option<
    Vec<char>,
>)
    requires
        opening@ == seq![open],
    ensures
        match r {
            Some(t) => bracketed(s@, key@, open, close) == Some(t@),
            None => bracketed(s@, key@, open, close) is None,
        },
{
    let from: usize = match key_end(s, key) {
        Some(n) => n,
        None => return None,
    };
    let start: usize = match find_from(s, opening, from) {
        Some(i) => i,
        None => return None,
    };
    let content = vstd::slice::slice_subrange(s, start, s.len());
    assert(content@ =~= s@.skip(start as int));
    match find_matching_bracket(content, open, close) {
        Some(end) => {
            let part = vstd::slice::slice_subrange(content, 0, end + 1);
            assert(part@ =~= content@.take(end + 1));
            Some(vstd::slice::slice_to_vec(part))
        },
        None => None,
    }
}

/// The array that follows the first `"key"`, with its brackets.
pub fn extract_array_field(s: &[char], key: &str) -> (r: Option<Vec<char>>)
    ensures
        match r {
            Some(t) => bracketed(s@, key@, '[', ']') == Some(t@),
            None => bracketed(s@, key@, '[', ']') is None,
        },
{
    proof {
        reveal_strlit("[");
    }
    assert("["@ =~= seq!['[']);
    extract_bracketed(s, key, '[', ']', "[")
}

/// The object that follows the first `"key"`, with its braces.
pub fn extract_object_field(s: &[char], key: &str) -> (r: Option<Vec<char>>)
    ensures
        match r {
            Some(t) => bracketed(s@, key@, '{', '}') == Some(t@),
            None => bracketed(s@, key@, '{', '}') is None,
        },
{
    proof {
        reveal_strlit("{");
    }
    assert("{"@ =~= seq!['{']);
    extract_bracketed(s, key, '{', '}', "{")
}

/// A string reads back: what stands between quotes behind the first `"key"`.
pub proof fn string_reads_back(
    before: Seq<char>,
    key: Seq<char>,
    gap: Seq<char>,
    value: Seq<char>,
    rest: Seq<char>,
)
    requires
        !gap.contains('"'),
        !value.contains('"'),
        ({
            let s = before + quoted(key) + gap + seq!['"'] + value + seq!['"'] + rest;
            find(s, quoted(key), 0) == Some(before.len() as int)
        }),
    ensures
        ({
            let s = before + seq!['"'] + key + seq!['"'] + gap + seq!['"'] + value + seq!['"'] + rest;
            string_field(s, key) == Some(value)
        }),
{
    reveal_strlit("\"");
    assert("\""@ =~= seq!['"']);
    let s = before + seq!['"'] + key + seq!['"'] + gap + seq!['"'] + value + seq!['"'] + rest;
    let t = before + quoted(key) + gap + seq!['"'] + value + seq!['"'] + rest;
    assert(s =~= t);
    let from: int = before.len() as int + key.len() + 2;
    let q1: int = from + gap.len();
    let q2: int = q1 + 1 + value.len();
    assert forall|i: int| from <= i < q1 implies #[trigger] s[i] != '"' by {
        assert(s[i] == gap[i - from]);
    }
    character_is_found(s, '"', from, q1);
    assert forall|i: int| q1 + 1 <= i < q2 implies #[trigger] s[i] != '"' by {
        assert(s[i] == value[i - q1 - 1]);
    }
    character_is_found(s, '"', q1 + 1, q2);
    assert(s.subrange(q1 + 1, q2) =~= value);
}

/// A boolean reads back: the word behind the first colon after the first `"key"`, with or without
/// white space between them. What else stands there is none.
pub proof fn boolean_reads_back(
    before: Seq<char>,
    key: Seq<char>,
    gap: Seq<char>,
    space: Seq<char>,
    rest: Seq<char>,
)
    requires
        !gap.contains(':'),
        forall|i: int| 0 <= i < space.len() ==> is_space(#[trigger] space[i]),
        rest.len() > 0 ==> !is_space(rest[0]),
        ({
            let s = before + quoted(key) + gap + seq![':'] + space + rest;
            find(s, quoted(key), 0) == Some(before.len() as int)
        }),
    ensures
        ({
            let field = bool_field(before + quoted(key) + gap + seq![':'] + space + rest, key);
            &&& field == Some(true) <==> starts_with(rest, seq!['t', 'r', 'u', 'e'])
            &&& field == Some(false) <==> starts_with(rest, seq!['f', 'a', 'l', 's', 'e'])
        }),
{
    reveal_strlit(":");
    reveal_strlit("\"");
    reveal_strlit("true");
    reveal_strlit("false");
    assert(":"@ =~= seq![':']);
    assert("true"@ =~= seq!['t', 'r', 'u', 'e']);
    assert("false"@ =~= seq!['f', 'a', 'l', 's', 'e']);
    let s = before + quoted(key) + gap + seq![':'] + space + rest;
    let from: int = before.len() as int + quoted(key).len();
    let colon: int = from + gap.len();
    assert forall|i: int| from <= i < colon implies #[trigger] s[i] != ':' by {
        assert(s[i] == gap[i - from]);
    }
    assert(s[colon] == ':');
    character_is_found(s, ':', from, colon);
    let tail = s.skip(colon + 1);
    assert(tail =~= space + rest);
    leading_space_is_cut_off(tail);
    let cut = tail.len() - trim_start(tail).len();
    if cut < space.len() {
        assert(trim_start(tail)[0] == space[cut]);
    }
    if cut > space.len() {
        assert(tail[space.len() as int] == rest[0]);
    }
    assert(trim_start(tail) =~= rest);
    if starts_with(rest, "true"@) && starts_with(rest, "false"@) {
        assert(rest.take(4)[0] == rest.take(5)[0]);
    }
}

/// How often a character stands in a text.
pub open spec fn occurrences(s: Seq<char>, c: char) -> nat {
    s.filter(|x: char| x == c).len()
}

/// As many more brackets are open as opening ones were seen more often than closing ones.
pub proof fn depth_counts_brackets(s: Seq<char>, open: char, close: char, n: int)
    requires
        0 <= n <= s.len(),
    ensures
        depth_after(s, open, close, n) == occurrences(s.take(n), open) - occurrences(s.take(n), close),
    decreases n,
{
    reveal(Seq::filter);
    if n > 0 {
        depth_counts_brackets(s, open, close, n - 1);
        assert(s.take(n).drop_last() =~= s.take(n - 1));
    }
}

/// The bracket that is found closes what was opened first: up to it brackets were opened and closed
/// equally often, and up to no closing bracket before it were they.
pub proof fn matching_bracket_is_the_first_balanced(s: Seq<char>, open: char, close: char)
    ensures
        match matching(s, open, close, 0) {
            Some(i) => {
                &&& 0 <= i < s.len() && s[i] == close
                &&& occurrences(s.take(i + 1), open) == occurrences(s.take(i + 1), close)
                &&& forall|j: int|
                    0 <= j < i && #[trigger] s[j] == close ==> occurrences(s.take(j + 1), open)
                        != occurrences(s.take(j + 1), close)
            },
            None => forall|j: int|
                0 <= j < s.len() && #[trigger] s[j] == close ==> occurrences(s.take(j + 1), open)
                    != occurrences(s.take(j + 1), close),
        },
{
    matching_is_first(s, open, close, 0);
    assert forall|j: int| 0 <= j < s.len() implies closes_at(s, open, close, j) == (#[trigger] s[j]
        == close && occurrences(s.take(j + 1), open) == occurrences(s.take(j + 1), close)) by {
        depth_counts_brackets(s, open, close, j + 1);
    }
}

proof fn matching_is_first(s: Seq<char>, open: char, close: char, from: int)
    requires
        0 <= from,
    ensures
        match matching(s, open, close, from) {
            Some(i) => from <= i && closes_at(s, open, close, i) && forall|j: int|
                from <= j < i ==> !closes_at(s, open, close, j),
            None => forall|j: int| from <= j < s.len() ==> !closes_at(s, open, close, j),
        },
    decreases s.len() - from,
{
    if from < s.len() && !closes_at(s, open, close, from) {
        matching_is_first(s, open, close, from + 1);
    }
}

/// Whether a text is one object: its first brace is closed by its last character, and by none
/// before.
pub open spec fn is_object(o: Seq<char>) -> bool {
    &&& o.len() >= 2
    &&& o[0] == '{'
    &&& o.last() == '}'
    &&& occurrences(o, '{') == occurrences(o, '}')
    &&& forall|k: int|
        0 < k < o.len() ==> occurrences(#[trigger] o.take(k), '{') > occurrences(o.take(k), '}')
}

/// Whether braces are opened and closed equally often in a text.
pub open spec fn balanced(s: Seq<char>) -> bool {
    occurrences(s, '{') == occurrences(s, '}')
}

proof fn prefix_is_read_alone(s: Seq<char>, t: Seq<char>, n: int)
    requires
        n <= s.len(),
    ensures
        depth_after(s + t, '{', '}', n) == depth_after(s, '{', '}', n),
        objects(s + t, n) == objects(s, n),
        last_start(s + t, n) == last_start(s, n),
        last_start(s, n) matches Some(i) ==> 0 <= i < n,
    decreases n,
{
    if n > 0 {
        prefix_is_read_alone(s, t, n - 1);
        assert((s + t)[n - 1] == s[n - 1]);
        if last_start(s, n) is Some {
            assert((s + t).subrange(last_start(s, n)->0, n) =~= s.subrange(last_start(s, n)->0, n));
        }
    }
}

proof fn gap_holds_no_object(s: Seq<char>, gap: Seq<char>, n: int)
    requires
        0 <= n <= gap.len(),
        !gap.contains('{'),
        !gap.contains('}'),
    ensures
        depth_after(s + gap, '{', '}', s.len() + n) == depth_after(s, '{', '}', s.len() as int),
        objects(s + gap, s.len() + n) == objects(s, s.len() as int),
    decreases n,
{
    if n == 0 {
        prefix_is_read_alone(s, gap, s.len() as int);
    } else {
        gap_holds_no_object(s, gap, n - 1);
        assert((s + gap)[s.len() + n - 1] == gap[n - 1]);
        assert(gap.contains(gap[n - 1]));
    }
}

proof fn object_is_entered(s: Seq<char>, o: Seq<char>, n: int)
    requires
        0 <= n < o.len(),
        is_object(o),
        depth_after(s, '{', '}', s.len() as int) == 0,
    ensures
        depth_after(s + o, '{', '}', s.len() + n) == depth_after(o, '{', '}', n),
        objects(s + o, s.len() + n) == objects(s, s.len() as int),
        n > 0 ==> last_start(s + o, s.len() + n) == Some(s.len() as int),
    decreases n,
{
    if n == 0 {
        prefix_is_read_alone(s, o, s.len() as int);
    } else {
        object_is_entered(s, o, n - 1);
        assert((s + o)[s.len() + n - 1] == o[n - 1]);
        depth_counts_brackets(o, '{', '}', n);
        assert(o.take(n).len() == n);
        if n > 1 {
            depth_counts_brackets(o, '{', '}', n - 1);
            assert(o.take(n - 1).len() == n - 1);
        }
    }
}

/// The objects of a list are read one by one, in their order: one that follows others, with no brace
/// between them, is read as it stands behind what was read before.
pub proof fn object_is_read_behind_others(s: Seq<char>, gap: Seq<char>, o: Seq<char>)
    requires
        balanced(s),
        !gap.contains('{'),
        !gap.contains('}'),
        is_object(o),
    ensures
        balanced(s + gap + o),
        objects(s + gap + o, (s + gap + o).len() as int) == objects(s, s.len() as int).push(o),
{
    let head = s + gap;
    let all = head + o;
    assert(s.take(s.len() as int) =~= s);
    assert(o.take(o.len() as int) =~= o);
    assert(all.take(all.len() as int) =~= all);
    depth_counts_brackets(s, '{', '}', s.len() as int);
    depth_counts_brackets(o, '{', '}', o.len() as int);
    depth_counts_brackets(all, '{', '}', all.len() as int);
    gap_holds_no_object(s, gap, gap.len() as int);
    object_is_entered(head, o, o.len() - 1);
    assert(all[all.len() - 1] == o.last());
    assert(all.subrange(head.len() as int, all.len() as int) =~= o);
}

} // verus!
