//! H.264 byte streams in Annex B form.
//!
//! A stream is a run of NAL units, each introduced by a three-byte (`00 00 01`) or a
//! four-byte (`00 00 00 01`) start code.

use crate::endian::put_bytes;
use vstd::prelude::*;

verus! {

/// The byte sequences that a vector of vectors holds.
pub open spec fn views(v: Seq<Vec<u8>>) -> Seq<Seq<u8>> {
    Seq::new(v.len(), |i: int| v[i]@)
}

/// The byte sequence that an optional vector holds.
pub open spec fn opt_view(v: Option<Vec<u8>>) -> Option<Seq<u8>> {
    match v {
        Some(bytes) => Some(bytes@),
        None => None,
    }
}

/// Length of the start code at `i`, 0 where none stands. Four bytes take precedence.
pub open spec fn code_at(s: Seq<u8>, i: int) -> int {
    if i + 3 < s.len() && s[i] == 0 && s[i + 1] == 0 && s[i + 2] == 0 && s[i + 3] == 1 {
        4
    } else if i + 2 < s.len() && s[i] == 0 && s[i + 1] == 0 && s[i + 2] == 1 {
        3
    } else {
        0
    }
}

/// Position of the first start code at or after `i`; the stream's length where none follows.
pub open spec fn next_code(s: Seq<u8>, i: int) -> int
    decreases s.len() - i,
{
    if i >= s.len() {
        s.len() as int
    } else if code_at(s, i) > 0 {
        i
    } else {
        next_code(s, i + 1)
    }
}

/// The NAL units of what follows a start code. Empty ones are passed over.
pub open spec fn nals_after_code(tail: Seq<u8>) -> Seq<Seq<u8>>
    decreases tail.len(),
{
    if tail.len() == 0 {
        Seq::empty()
    } else {
        proof {
            next_code_bounds(tail, 0);
        }
        let end = next_code(tail, 0);
        let head = if end > 0 {
            seq![tail.take(end)]
        } else {
            Seq::empty()
        };
        if end < tail.len() {
            head + nals_after_code(tail.skip(end + code_at(tail, end)))
        } else {
            head
        }
    }
}

/// The NAL units of a stream, without their start codes. What stands before the first start
/// code belongs to none.
pub open spec fn annex_b_nals(s: Seq<u8>) -> Seq<Seq<u8>> {
    let first = next_code(s, 0);
    if first < s.len() {
        nals_after_code(s.skip(first + code_at(s, first)))
    } else {
        Seq::empty()
    }
}

/// Type of a NAL unit: the low five bits of its first byte.
pub open spec fn nal_type_of(nal: Seq<u8>) -> u8 {
    (nal[0] % 32) as u8
}

/// The last NAL unit of type `t`.
pub open spec fn last_of_type(nals: Seq<Seq<u8>>, t: u8) -> Option<Seq<u8>>
    decreases nals.len(),
{
    if nals.len() == 0 {
        None
    } else if nal_type_of(nals.last()) == t {
        Some(nals.last())
    } else {
        last_of_type(nals.drop_last(), t)
    }
}

/// One NAL unit behind a four-byte start code.
pub open spec fn with_start_code(nal: Seq<u8>) -> Seq<u8> {
    seq![0u8, 0, 0, 1] + nal
}

/// NAL units one after another, each behind a four-byte start code.
pub open spec fn annex_b_stream(nals: Seq<Seq<u8>>) -> Seq<u8>
    decreases nals.len(),
{
    if nals.len() == 0 {
        Seq::empty()
    } else {
        with_start_code(nals[0]) + annex_b_stream(nals.drop_first())
    }
}

/// Whether a NAL unit can stand in a stream: it is not empty and holds no start code.
pub open spec fn streamable(nal: Seq<u8>) -> bool {
    &&& nal.len() > 0
    &&& forall|i: int|
        0 <= i < nal.len() - 2 ==> !(nal[i] == 0 && #[trigger] nal[i + 1] == 0 && nal[i + 2] == 1)
}

/// A start code found lies inside the stream, and none stands before it.
pub proof fn next_code_bounds(s: Seq<u8>, i: int)
    requires
        0 <= i <= s.len(),
    ensures
        i <= next_code(s, i) <= s.len(),
        next_code(s, i) < s.len() ==> code_at(s, next_code(s, i)) > 0,
        next_code(s, i) < s.len() ==> next_code(s, i) + code_at(s, next_code(s, i)) <= s.len(),
        forall|j: int| i <= j < next_code(s, i) ==> code_at(s, j) == 0,
    decreases s.len() - i,
{
    if i < s.len() && code_at(s, i) == 0 {
        next_code_bounds(s, i + 1);
    }
}

proof fn next_code_is(s: Seq<u8>, i: int, end: int)
    requires
        0 <= i <= end <= s.len(),
        forall|j: int| i <= j < end ==> code_at(s, j) == 0,
        end < s.len() ==> code_at(s, end) > 0,
    ensures
        next_code(s, i) == end,
    decreases end - i,
{
    if i < end {
        next_code_is(s, i + 1, end);
    }
}

/// Looking for a start code does not depend on what stands before.
pub proof fn next_code_in_suffix(s: Seq<u8>, from: int)
    requires
        0 <= from <= s.len(),
    ensures
        next_code(s, from) == from + next_code(s.skip(from), 0),
        next_code(s, from) < s.len() ==> code_at(s, next_code(s, from)) == code_at(
            s.skip(from),
            next_code(s.skip(from), 0),
        ),
{
    let t = s.skip(from);
    let end = next_code(t, 0);
    next_code_bounds(t, 0);
    assert forall|j: int| from <= j < from + end implies code_at(s, j) == 0 by {
        assert(code_at(t, j - from) == 0);
        assert(code_at(s, j) == code_at(t, j - from));
    }
    if end < t.len() {
        assert(code_at(s, from + end) == code_at(t, end));
    }
    next_code_is(s, from, from + end);
}

proof fn stream_after_code(nals: Seq<Seq<u8>>)
    requires
        nals.len() > 0,
        forall|i: int| 0 <= i < nals.len() ==> streamable(#[trigger] nals[i]),
    ensures
        nals_after_code(nals[0] + annex_b_stream(nals.drop_first())) == nals,
    decreases nals.len(),
{
    let nal = nals[0];
    let rest = nals.drop_first();
    let tail = nal + annex_b_stream(rest);
    let n = nal.len() as int;
    if rest.len() == 0 {
        assert(tail =~= nal);
        assert forall|j: int| 0 <= j < n implies code_at(tail, j) == 0 by {
            assert(j + 1 < n ==> nal[j + 1] == tail[j + 1]);
            assert(j + 2 < n ==> nal[j + 1 + 1] == tail[j + 2]);
        }
        next_code_is(tail, 0, n);
        assert(tail.take(n) =~= nal);
        assert(nals =~= seq![nal]);
    } else {
        let code = with_start_code(rest[0]) + annex_b_stream(rest.drop_first());
        assert(annex_b_stream(rest) == code);
        assert(tail[n] == 0 && tail[n + 1] == 0 && tail[n + 2] == 0 && tail[n + 3] == 1);
        assert forall|j: int| 0 <= j < n implies code_at(tail, j) == 0 by {
            assert(j + 1 < n ==> nal[j + 1] == tail[j + 1]);
            assert(j + 2 < n ==> nal[j + 1 + 1] == tail[j + 2]);
            assert(j + 3 < n ==> nal[j + 2 + 1] == tail[j + 3]);
        }
        next_code_is(tail, 0, n);
        assert(code_at(tail, n) == 4);
        assert(tail.take(n) =~= nal);
        assert(tail.skip(n + 4) =~= rest[0] + annex_b_stream(rest.drop_first()));
        assert(forall|i: int| 0 <= i < rest.len() ==> rest[i] == nals[i + 1]);
        stream_after_code(rest);
        assert(nals =~= seq![nal] + rest);
    }
}

/// Writing NAL units as a stream and splitting the stream gives the NAL units back, in order.
pub proof fn stream_splits_into_its_nals(nals: Seq<Seq<u8>>)
    requires
        forall|i: int| 0 <= i < nals.len() ==> streamable(#[trigger] nals[i]),
    ensures
        annex_b_nals(annex_b_stream(nals)) == nals,
{
    let s = annex_b_stream(nals);
    if nals.len() > 0 {
        assert(code_at(s, 0) == 4);
        assert(s.skip(4) =~= nals[0] + annex_b_stream(nals.drop_first()));
        stream_after_code(nals);
    } else {
        assert(nals =~= Seq::empty());
    }
}

/// No NAL unit of a stream is empty.
pub proof fn nals_are_not_empty(s: Seq<u8>)
    ensures
        forall|i: int| 0 <= i < annex_b_nals(s).len() ==> (#[trigger] annex_b_nals(s)[i]).len() > 0,
{
    let first = next_code(s, 0);
    next_code_bounds(s, 0);
    if first < s.len() {
        tail_nals_are_not_empty(s.skip(first + code_at(s, first)));
    }
}

proof fn tail_nals_are_not_empty(tail: Seq<u8>)
    ensures
        forall|i: int|
            0 <= i < nals_after_code(tail).len() ==> (#[trigger] nals_after_code(tail)[i]).len() > 0,
    decreases tail.len(),
{
    if tail.len() > 0 {
        next_code_bounds(tail, 0);
        let end = next_code(tail, 0);
        if end < tail.len() {
            let rest = tail.skip(end + code_at(tail, end));
            tail_nals_are_not_empty(rest);
            assert forall|i: int| 0 <= i < nals_after_code(tail).len() implies (
            #[trigger] nals_after_code(tail)[i]).len() > 0 by {
                let skipped = if end > 0 {
                    1int
                } else {
                    0int
                };
                if i >= skipped {
                    assert(nals_after_code(tail)[i] == nals_after_code(rest)[i - skipped]);
                }
            }
        }
    }
}

/// Appending a NAL unit to a stream.
pub proof fn stream_push(nals: Seq<Seq<u8>>, nal: Seq<u8>)
    ensures
        annex_b_stream(nals.push(nal)) == annex_b_stream(nals) + with_start_code(nal),
    decreases nals.len(),
{
    let longer = nals.push(nal);
    if nals.len() == 0 {
        assert(longer.drop_first() =~= Seq::<Seq<u8>>::empty());
        assert(annex_b_stream(longer.drop_first()) =~= Seq::<u8>::empty());
        assert(annex_b_stream(longer) =~= annex_b_stream(nals) + with_start_code(nal));
    } else {
        stream_push(nals.drop_first(), nal);
        assert(longer.drop_first() =~= nals.drop_first().push(nal));
        assert(annex_b_stream(longer) =~= annex_b_stream(nals) + with_start_code(nal));
    }
}

/// Appends a NAL unit behind a four-byte start code.
pub fn put_nal(out: &mut Vec<u8>, nal: &[u8])
    ensures
        final(out)@ == old(out)@ + with_start_code(nal@),
{
    out.push(0);
    out.push(0);
    out.push(0);
    out.push(1);
    put_bytes(out, nal);
    assert(out@ =~= old(out)@ + with_start_code(nal@));
}

/// Writes NAL units as a stream.
pub fn join_nals(nals: &[Vec<u8>]) -> (out: Vec<u8>)
    ensures
        out@ == annex_b_stream(views(nals@)),
{
    let mut out: Vec<u8> = Vec::new();
    let ghost all = views(nals@);
    let mut i: usize = 0;
    while i < nals.len()
        invariant
            i <= nals@.len(),
            all == views(nals@),
            out@ == annex_b_stream(all.take(i as int)),
        decreases nals@.len() - i,
    {
        proof {
            stream_push(all.take(i as int), all[i as int]);
            assert(all.take(i + 1) =~= all.take(i as int).push(all[i as int]));
        }
        put_nal(&mut out, &nals[i]);
        i = i + 1;
    }
    assert(all.take(i as int) =~= all);
    out
}

fn start_code_at(data: &[u8], i: usize) -> (len: usize)
    requires
        i <= data@.len(),
    ensures
        len == code_at(data@, i as int),
{
    let rest: usize = data.len() - i;
    if rest > 3 && data[i] == 0 && data[i + 1] == 0 && data[i + 2] == 0 && data[i + 3] == 1 {
        4
    } else if rest > 2 && data[i] == 0 && data[i + 1] == 0 && data[i + 2] == 1 {
        3
    } else {
        0
    }
}

fn find_start_code(data: &[u8], from: usize) -> (at: usize)
    requires
        from <= data@.len(),
    ensures
        at == next_code(data@, from as int),
{
    let mut i: usize = from;
    while i < data.len()
        invariant
            from <= i <= data@.len(),
            next_code(data@, from as int) == next_code(data@, i as int),
        decreases data@.len() - i,
    {
        if start_code_at(data, i) > 0 {
            return i;
        }
        i = i + 1;
    }
    i
}

/// Splits a stream into its NAL units.
pub fn split_nals(data: &[u8]) -> (nals: Vec<Vec<u8>>)
    ensures
        views(nals@) == annex_b_nals(data@),
{
    let mut nals: Vec<Vec<u8>> = Vec::new();
    let first = find_start_code(data, 0);
    proof {
        next_code_bounds(data@, 0);
    }
    if first >= data.len() {
        assert(views(nals@) =~= annex_b_nals(data@));
        return nals;
    }
    let mut start: usize = first + start_code_at(data, first);
    assert(views(nals@) + nals_after_code(data@.skip(start as int)) =~= annex_b_nals(data@));
    while start < data.len()
        invariant
            start <= data@.len(),
            views(nals@) + nals_after_code(data@.skip(start as int)) == annex_b_nals(data@),
        decreases data@.len() - start,
    {
        let ghost tail = data@.skip(start as int);
        let ghost before = views(nals@);
        let end = find_start_code(data, start);
        proof {
            next_code_bounds(data@, start as int);
            next_code_bounds(tail, 0);
            next_code_in_suffix(data@, start as int);
        }
        if end > start {
            let nal = vstd::slice::slice_to_vec(vstd::slice::slice_subrange(data, start, end));
            assert(nal@ =~= tail.take(end - start));
            nals.push(nal);
            assert(views(nals@) =~= before.push(tail.take(end - start)));
        }
        if end < data.len() {
            let code: usize = start_code_at(data, end);
            assert(data@.skip(end + code) =~= tail.skip(end - start + code));
            start = end + code;
        } else {
            start = end;
            assert(nals_after_code(data@.skip(start as int)) =~= Seq::<Seq<u8>>::empty());
        }
        assert(views(nals@) + nals_after_code(data@.skip(start as int)) =~= annex_b_nals(data@));
    }
    assert(nals_after_code(data@.skip(start as int)) =~= Seq::<Seq<u8>>::empty());
    assert(views(nals@) =~= annex_b_nals(data@));
    nals
}

proof fn unit_before_short_code(nal: Seq<u8>, rest: Seq<u8>)
    requires
        streamable(nal),
        nal.last() != 0,
    ensures
        nals_after_code(nal + seq![0u8, 0, 1] + rest) == seq![nal] + nals_after_code(rest),
{
    let tail = nal + seq![0u8, 0, 1] + rest;
    let n = nal.len() as int;
    assert(tail[n] == 0 && tail[n + 1] == 0 && tail[n + 2] == 1);
    assert forall|j: int| 0 <= j < n implies code_at(tail, j) == 0 by {
        assert(j + 1 < n ==> nal[j + 1] == tail[j + 1]);
        assert(j + 2 < n ==> nal[j + 1 + 1] == tail[j + 2]);
        assert(j + 3 < n ==> nal[j + 2 + 1] == tail[j + 3]);
        assert(tail[n - 1] == nal.last());
    }
    next_code_is(tail, 0, n);
    assert(code_at(tail, n) == 3);
    assert(tail.take(n) =~= nal);
    assert(tail.skip(n + 3) =~= rest);
}

/// Start codes of three bytes separate NAL units as those of four bytes do.
pub proof fn short_codes_separate_units(first: Seq<u8>, second: Seq<u8>)
    requires
        streamable(first),
        first.last() != 0,
        streamable(second),
    ensures
        annex_b_nals(seq![0u8, 0, 1] + first + seq![0u8, 0, 1] + second) == seq![first, second],
        annex_b_nals(seq![0u8, 0, 1] + first + seq![0u8, 0, 1] + second) == annex_b_nals(
            annex_b_stream(seq![first, second]),
        ),
{
    let s = seq![0u8, 0, 1] + first + seq![0u8, 0, 1] + second;
    assert(code_at(s, 0) == 3);
    assert(s.skip(3) =~= first + seq![0u8, 0, 1] + second);
    unit_before_short_code(first, second);
    let alone = seq![second];
    assert(alone.drop_first() =~= Seq::empty());
    assert(second + annex_b_stream(alone.drop_first()) =~= second);
    stream_after_code(alone);
    assert(seq![first] + alone =~= seq![first, second]);
    let both = seq![first, second];
    assert forall|i: int| 0 <= i < both.len() implies streamable(#[trigger] both[i]) by {
        assert(both[i] == first || both[i] == second);
    }
    stream_splits_into_its_nals(both);
}

/// What stands before the first start code belongs to no NAL unit.
pub proof fn units_begin_at_the_first_code(junk: Seq<u8>, stream: Seq<u8>)
    requires
        forall|i: int| 0 <= i < junk.len() ==> code_at(junk + stream, i) == 0,
    ensures
        annex_b_nals(junk + stream) == annex_b_nals(stream),
{
    let s = junk + stream;
    let n = junk.len() as int;
    assert(s.skip(n) =~= stream);
    next_code_in_suffix(s, n);
    next_code_bounds(stream, 0);
    let end = next_code(stream, 0);
    if end < stream.len() {
        assert(code_at(s, n + end) == code_at(stream, end));
    }
    assert forall|j: int| 0 <= j < n + end implies code_at(s, j) == 0 by {
        if j >= n {
            assert(code_at(s, j) == code_at(stream, j - n));
        }
    }
    next_code_is(s, 0, n + end);
    assert(s.skip(n + end + code_at(stream, end)) =~= stream.skip(end + code_at(stream, end)));
}

/// The type of a NAL unit is in the five low bits of its first byte; the three above them say nothing
/// of it.
pub proof fn type_is_in_the_low_bits(nal: Seq<u8>)
    ensures
        nal_type_of(nal) == nal[0] & 0x1F,
{
    let b = nal[0];
    assert(b % 32 == b & 0x1F) by (bit_vector);
}

/// The unit of a type that is found is the last one: it stands in the list, and none behind it has the
/// type.
pub proof fn last_of_type_is_the_last(nals: Seq<Seq<u8>>, t: u8, i: int)
    requires
        0 <= i < nals.len(),
        nal_type_of(nals[i]) == t,
        forall|j: int| i < j < nals.len() ==> nal_type_of(#[trigger] nals[j]) != t,
    ensures
        last_of_type(nals, t) == Some(nals[i]),
    decreases nals.len(),
{
    if i < nals.len() - 1 {
        assert(nals.last() == nals[nals.len() - 1]);
        last_of_type_is_the_last(nals.drop_last(), t, i);
    }
}

/// Where no unit has a type, none is found.
pub proof fn none_of_type_is_found(nals: Seq<Seq<u8>>, t: u8)
    requires
        forall|j: int| 0 <= j < nals.len() ==> nal_type_of(#[trigger] nals[j]) != t,
    ensures
        last_of_type(nals, t) is None,
    decreases nals.len(),
{
    if nals.len() > 0 {
        assert(nals.last() == nals[nals.len() - 1]);
        none_of_type_is_found(nals.drop_last(), t);
    }
}

} // verus!
