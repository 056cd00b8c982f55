//! What a reader of MP4 boxes finds in the fields of the segments: times, sizes, flags and
//! identifiers at the places where the format has them.

use super::demux::kind_is;
use super::layout::{
    avc1_box, avc1_fields, avcc_box, avcc_content, compressor_name, data_offset,
    data_offset_is_where_the_payload_starts, dinf_box, dref_box, ftyp_box,
    full, handler_name, hdlr_box, init_segment, matrix, mdat_box, mdhd_box, mdia_box, media_segment,
    mfhd_box, minf_box, moof_box, moof_len, moov_box, mp4_box, mvex_box, mvhd_box, payload, profile,
    sample_entries, sample_entry, stbl_box, stco_box, stsc_box, stsd_box, stsz_box, stts_box,
    styp_box, tag, tfdt_box, tfhd_box, tkhd_box, traf_box, trak_box, trex_box, trun_box, vmhd_box,
    zeros, Sample, Track,
};
use crate::endian::{be16, be16_at, be16_round_trip, be32, be32_at, be32_read, be32_round_trip, be64, be64_at, be64_read};
use vstd::prelude::*;

verus! {

/// The content of the first box of a type among boxes that stand one after another.
pub open spec fn box_content(s: Seq<u8>, a: char, b: char, c: char, d: char) -> Option<Seq<u8>>
    decreases s.len(),
{
    if s.len() < 8 || be32_at(s, 0) < 8 || be32_at(s, 0) > s.len() {
        None
    } else if kind_is(s, a, b, c, d) {
        Some(s.subrange(8, be32_at(s, 0)))
    } else {
        box_content(s.skip(be32_at(s, 0)), a, b, c, d)
    }
}

/// The content of the first box of a type inside another box.
pub open spec fn within(s: Option<Seq<u8>>, a: char, b: char, c: char, d: char) -> Option<Seq<u8>> {
    match s {
        Some(content) => box_content(content, a, b, c, d),
        None => None,
    }
}

/// Whether the four letters are those of another type.
spec fn other_kind(k: (char, char, char, char), l: (char, char, char, char)) -> bool {
    k.0 as u8 != l.0 as u8 || k.1 as u8 != l.1 as u8 || k.2 as u8 != l.2 as u8 || k.3 as u8 != l.3 as u8
}

proof fn box_parts(a: char, b: char, c: char, d: char, content: Seq<u8>, rest: Seq<u8>)
    requires
        8 + content.len() < 0x1_0000_0000,
    ensures
        ({
            let s = mp4_box(tag(a, b, c, d), content) + rest;
            let size = 8 + content.len() as int;
            &&& s.len() == size + rest.len()
            &&& be32_at(s, 0) == size
            &&& kind_is(s, a, b, c, d)
            &&& s.subrange(8, size) == content
            &&& s.skip(size) == rest
        }),
{
    let size = 8 + content.len() as int;
    let s = mp4_box(tag(a, b, c, d), content) + rest;
    be32_round_trip(size);
    assert(be32_at(s, 0) == be32_at(be32(size), 0));
    assert(s.subrange(8, size) =~= content);
    assert(s.skip(size) =~= rest);
}

proof fn found_first(a: char, b: char, c: char, d: char, content: Seq<u8>, rest: Seq<u8>)
    requires
        8 + content.len() < 0x1_0000_0000,
    ensures
        box_content(mp4_box(tag(a, b, c, d), content) + rest, a, b, c, d) == Some(content),
        box_content(mp4_box(tag(a, b, c, d), content), a, b, c, d) == Some(content),
{
    box_parts(a, b, c, d, content, rest);
    box_parts(a, b, c, d, content, Seq::empty());
    let s = mp4_box(tag(a, b, c, d), content);
    assert(s + Seq::<u8>::empty() =~= s);
}

proof fn passed_over(
    k: (char, char, char, char),
    content: Seq<u8>,
    rest: Seq<u8>,
    l: (char, char, char, char),
)
    requires
        8 + content.len() < 0x1_0000_0000,
        other_kind(k, l),
    ensures
        box_content(mp4_box(tag(k.0, k.1, k.2, k.3), content) + rest, l.0, l.1, l.2, l.3)
            == box_content(rest, l.0, l.1, l.2, l.3),
{
    box_parts(k.0, k.1, k.2, k.3, content, rest);
}

proof fn box_len(a: char, b: char, c: char, d: char, content: Seq<u8>)
    ensures
        mp4_box(tag(a, b, c, d), content).len() == 8 + content.len(),
{
}

/// The movie header: the unit of its times, played at the rate and loudness that it was recorded at.
#[verifier::spinoff_prover]
#[verifier::rlimit(60)]
pub proof fn mvhd_states_the_timescale(t: Track)
    ensures
        box_content(mvhd_box(t), 'm', 'v', 'h', 'd') matches Some(s) && s.len() == 100 && be32_at(s, 0)
            == 0 && be32_at(s, 12) == t.timescale && be32_at(s, 16) == 0 && be32_at(s, 20) == 0x1_0000
            && be16_at(s, 24) == 0x100 && be32_at(s, 96) == 2,
{
    let m = matrix();
    assert(m.len() == 36);
    let head = full(0, 0, 0, 0) + be32(0) + be32(0) + be32(t.timescale as int) + be32(0) + be32(0x0001_0000) + be16(
        0x0100,
    );
    let tail = head + zeros(2) + zeros(8) + m + zeros(24);
    let s = tail + be32(2);
    assert(head.len() == 26);
    assert(tail.len() == 96);
    assert(head.subrange(0, 4) =~= be32(0));
    assert(head.subrange(12, 16) =~= be32(t.timescale as int));
    assert(head.subrange(16, 20) =~= be32(0));
    assert(head.subrange(20, 24) =~= be32(0x1_0000));
    be32_read(head, 0, 0);
    be32_read(head, 12, t.timescale as int);
    be32_read(head, 16, 0);
    be32_read(head, 20, 0x1_0000);
    be16_round_trip(0x100);
    assert(head[24] == be16(0x100)[0] && head[25] == be16(0x100)[1]);
    assert(forall|i: int| 0 <= i < 26 ==> s[i] == head[i]);
    assert(s.subrange(96, 100) =~= be32(2));
    be32_read(s, 96, 2);
    found_first('m', 'v', 'h', 'd', s, Seq::empty());
}

proof fn matrix_len()
    ensures
        matrix().len() == 36,
{
}

spec fn tkhd_head(t: Track) -> Seq<u8> {
    full(0, 0, 0, 3) + be32(0) + be32(0) + be32(t.track_id as int) + be32(0) + be32(0) + zeros(8) + be16(0)
        + be16(0) + be16(0) + be16(0)
}

proof fn fixed_point(x: u32)
    ensures
        (x * 0x1_0000) % 0x1_0000_0000 == (x % 0x1_0000) * 0x1_0000,
{
    assert(x == x / 0x1_0000 * 0x1_0000 + x % 0x1_0000);
}

/// The track header: an enabled track of the movie under its number, and the low 16 bits of width
/// and height as 16.16 fixed point.
#[verifier::spinoff_prover]
#[verifier::rlimit(60)]
pub proof fn tkhd_states_the_track(t: Track)
    ensures
        box_content(tkhd_box(t), 't', 'k', 'h', 'd') matches Some(s) && s.len() == 84 && be32_at(s, 0) == 3
            && be32_at(s, 12) == t.track_id && be32_at(s, 76) == t.width % 0x1_0000 * 0x1_0000 && be32_at(
            s,
            80,
        ) == t.height % 0x1_0000 * 0x1_0000,
{
    let head = tkhd_head(t);
    let m = matrix();
    matrix_len();
    assert(head.len() == 40);
    let s = head + m + be32(t.width * 0x1_0000) + be32(t.height * 0x1_0000);
    assert(head.subrange(0, 4) =~= be32(3));
    assert(head.subrange(12, 16) =~= be32(t.track_id as int));
    be32_read(head, 0, 3);
    be32_read(head, 12, t.track_id as int);
    assert(forall|i: int| 0 <= i < 40 ==> s[i] == head[i]);
    assert(s.subrange(76, 80) =~= be32(t.width * 0x1_0000));
    assert(s.subrange(80, 84) =~= be32(t.height * 0x1_0000));
    be32_read(s, 76, t.width * 0x1_0000);
    be32_read(s, 80, t.height * 0x1_0000);
    fixed_point(t.width);
    fixed_point(t.height);
    found_first('t', 'k', 'h', 'd', s, Seq::empty());
}

/// The media header: the unit in which the fragments state their times, in no known language.
pub proof fn mdhd_states_the_timescale(t: Track)
    ensures
        box_content(mdhd_box(t), 'm', 'd', 'h', 'd') matches Some(s) && s.len() == 24 && be32_at(s, 0) == 0
            && be32_at(s, 12) == t.timescale && be32_at(s, 16) == 0 && be16_at(s, 20) == 0x55c4,
{
    let s = full(0, 0, 0, 0) + be32(0) + be32(0) + be32(t.timescale as int) + be32(0) + be16(0x55c4) + be16(0);
    assert(s.subrange(0, 4) =~= be32(0));
    assert(s.subrange(12, 16) =~= be32(t.timescale as int));
    assert(s.subrange(16, 20) =~= be32(0));
    be32_read(s, 0, 0);
    be32_read(s, 12, t.timescale as int);
    be32_read(s, 16, 0);
    be16_round_trip(0x55c4);
    assert(s[20] == be16(0x55c4)[0] && s[21] == be16(0x55c4)[1]);
    found_first('m', 'd', 'h', 'd', s, Seq::empty());
}

/// The handler: the track is video, and it has a name that ends with a zero.
pub proof fn hdlr_states_video()
    ensures
        box_content(hdlr_box(), 'h', 'd', 'l', 'r') matches Some(s) && s.len() == 37 && be32_at(s, 0) == 0
            && be32_at(s, 4) == 0 && s.subrange(8, 12) == seq![
            'v' as u8,
            'i' as u8,
            'd' as u8,
            'e' as u8,
        ] && s.last() == 0,
{
    let s = full(0, 0, 0, 0) + be32(0) + tag('v', 'i', 'd', 'e') + zeros(12) + handler_name();
    assert(handler_name().len() == 13);
    assert(s.subrange(0, 4) =~= be32(0));
    assert(s.subrange(4, 8) =~= be32(0));
    be32_read(s, 0, 0);
    be32_read(s, 4, 0);
    assert(s.subrange(8, 12) =~= seq!['v' as u8, 'i' as u8, 'd' as u8, 'e' as u8]);
    found_first('h', 'd', 'l', 'r', s, Seq::empty());
}

/// The defaults of a track: its number, and the first (and only) sample description.
pub proof fn trex_states_the_track(t: Track)
    ensures
        box_content(trex_box(t), 't', 'r', 'e', 'x') matches Some(s) && s.len() == 24 && be32_at(s, 0) == 0
            && be32_at(s, 4) == t.track_id && be32_at(s, 8) == 1 && be32_at(s, 12) == 0 && be32_at(s, 16)
            == 0 && be32_at(s, 20) == 0,
{
    let s = full(0, 0, 0, 0) + be32(t.track_id as int) + be32(1) + be32(0) + be32(0) + be32(0);
    assert(s.subrange(0, 4) =~= be32(0));
    assert(s.subrange(4, 8) =~= be32(t.track_id as int));
    assert(s.subrange(8, 12) =~= be32(1));
    assert(s.subrange(12, 16) =~= be32(0));
    assert(s.subrange(16, 20) =~= be32(0));
    assert(s.subrange(20, 24) =~= be32(0));
    be32_read(s, 0, 0);
    be32_read(s, 4, t.track_id as int);
    be32_read(s, 8, 1);
    be32_read(s, 12, 0);
    be32_read(s, 16, 0);
    be32_read(s, 20, 0);
    found_first('t', 'r', 'e', 'x', s, Seq::empty());
}

/// The decoder configuration: the profile, compatibility and level of the SPS, NAL units behind
/// lengths of 4 bytes, and one parameter set of each kind behind its 16-bit length.
pub proof fn avcc_states_the_parameter_sets(sps: Seq<u8>, pps: Seq<u8>)
    requires
        sps.len() < 0x1_0000,
        pps.len() < 0x1_0000,
    ensures
        ({
            let s = avcc_content(sps, pps);
            let n = sps.len() as int;
            &&& s.len() == 11 + n + pps.len()
            &&& s[0] == 1
            &&& n >= 4 ==> s.subrange(1, 4) == sps.subrange(1, 4)
            &&& n < 4 ==> s[1] == 100 && s[2] == 0 && s[3] == 31
            &&& s[4] % 4 + 1 == 4
            &&& s[5] % 32 == 1
            &&& be16_at(s, 6) == n
            &&& s.subrange(8, 8 + n) == sps
            &&& s[8 + n] == 1
            &&& be16_at(s, 9 + n) == pps.len()
            &&& s.skip(11 + n) == pps
        }),
{
    let s = avcc_content(sps, pps);
    let n = sps.len() as int;
    let m = pps.len() as int;
    be16_round_trip(n);
    be16_round_trip(m);
    assert(s[1] == profile(sps)[0] && s[2] == profile(sps)[1] && s[3] == profile(sps)[2]);
    if n >= 4 {
        assert(s.subrange(1, 4) =~= sps.subrange(1, 4));
    }
    assert(s[6] == be16(n)[0] && s[7] == be16(n)[1]);
    assert(s.subrange(8, 8 + n) =~= sps);
    assert(s[9 + n] == be16(m)[0] && s[10 + n] == be16(m)[1]);
    assert(s.skip(11 + n) =~= pps);
}

/// The sample entry: 78 bytes with the low 16 bits of width and height, 72 dpi, one frame a
/// sample and 24 bits a pixel, then the decoder configuration.
#[verifier::spinoff_prover]
#[verifier::rlimit(60)]
pub proof fn avc1_states_the_picture(t: Track)
    requires
        t.sps.len() < 0x1_0000,
        t.pps.len() < 0x1_0000,
    ensures
        box_content(avc1_box(t), 'a', 'v', 'c', '1') matches Some(s) && s.len() > 78 && be16_at(s, 6) == 1
            && be16_at(s, 24) == t.width % 0x1_0000 && be16_at(s, 26) == t.height % 0x1_0000 && be32_at(s, 28)
            == 72 * 0x1_0000 && be32_at(s, 32) == 72 * 0x1_0000 && be16_at(s, 40) == 1 && be16_at(s, 74) == 24
            && be16_at(s, 76) == 0xFFFF && box_content(s.skip(78), 'a', 'v', 'c', 'C') == Some(
            avcc_content(t.sps, t.pps),
        ),
{
    let head = zeros(6) + be16(1) + be16(0) + be16(0) + zeros(12) + be16(t.width as int) + be16(
        t.height as int,
    ) + be32(0x0048_0000) + be32(0x0048_0000) + be32(0) + be16(1);
    let name = compressor_name();
    assert(name.len() == 32);
    assert(head.len() == 42);
    let f = head + name + be16(0x0018) + be16(0xFFFF);
    assert(f.len() == 78);
    assert(f == avc1_fields(t));
    let s = f + avcc_box(t);
    be16_round_trip(1);
    be16_round_trip(t.width as int);
    be16_round_trip(t.height as int);
    be16_round_trip(0x18);
    be16_round_trip(0xFFFF);
    assert(head[6] == be16(1)[0] && head[7] == be16(1)[1]);
    assert(head[24] == be16(t.width as int)[0] && head[25] == be16(t.width as int)[1]);
    assert(head[26] == be16(t.height as int)[0] && head[27] == be16(t.height as int)[1]);
    assert(head[40] == be16(1)[0] && head[41] == be16(1)[1]);
    assert(head.subrange(28, 32) =~= be32(0x0048_0000));
    assert(head.subrange(32, 36) =~= be32(0x0048_0000));
    be32_read(head, 28, 0x0048_0000);
    be32_read(head, 32, 0x0048_0000);
    assert(forall|i: int| 0 <= i < 42 ==> s[i] == head[i]);
    assert(s[74] == be16(0x18)[0] && s[75] == be16(0x18)[1]);
    assert(s[76] == be16(0xFFFF)[0] && s[77] == be16(0xFFFF)[1]);
    avcc_states_the_parameter_sets(t.sps, t.pps);
    assert(s.skip(78) =~= avcc_box(t));
    found_first('a', 'v', 'c', 'C', avcc_content(t.sps, t.pps), Seq::empty());
    box_len('a', 'v', 'c', 'C', avcc_content(t.sps, t.pps));
    found_first('a', 'v', 'c', '1', s, Seq::empty());
}

/// The sample description has one entry.
pub proof fn stsd_states_one_entry(t: Track)
    requires
        16 + avc1_box(t).len() < 0x1_0000_0000,
    ensures
        box_content(stsd_box(t), 's', 't', 's', 'd') matches Some(s) && be32_at(s, 0) == 0 && be32_at(s, 4)
            == 1 && s.skip(8) == avc1_box(t),
{
    let s = full(0, 0, 0, 0) + be32(1) + avc1_box(t);
    assert(s.subrange(0, 4) =~= be32(0));
    assert(s.subrange(4, 8) =~= be32(1));
    be32_read(s, 0, 0);
    be32_read(s, 4, 1);
    assert(s.skip(8) =~= avc1_box(t));
    found_first('s', 't', 's', 'd', s, Seq::empty());
}

type Kind = (char, char, char, char);

spec fn boxed(k: Kind, content: Seq<u8>) -> Seq<u8> {
    mp4_box(tag(k.0, k.1, k.2, k.3), content)
}

spec fn found(s: Seq<u8>, k: Kind) -> Option<Seq<u8>> {
    box_content(s, k.0, k.1, k.2, k.3)
}

proof fn pair_found(k: Kind, x: Seq<u8>, l: Kind, y: Seq<u8>)
    requires
        8 + x.len() < 0x1_0000_0000,
        8 + y.len() < 0x1_0000_0000,
        other_kind(k, l),
    ensures
        found(boxed(k, x) + boxed(l, y), k) == Some(x),
        found(boxed(k, x) + boxed(l, y), l) == Some(y),
{
    found_first(k.0, k.1, k.2, k.3, x, boxed(l, y));
    passed_over(k, x, boxed(l, y), l);
    found_first(l.0, l.1, l.2, l.3, y, Seq::empty());
}

proof fn three_found(k: Kind, x: Seq<u8>, l: Kind, y: Seq<u8>, m: Kind, z: Seq<u8>)
    requires
        8 + x.len() < 0x1_0000_0000,
        8 + y.len() < 0x1_0000_0000,
        8 + z.len() < 0x1_0000_0000,
        other_kind(k, l),
        other_kind(k, m),
        other_kind(l, m),
    ensures
        found(boxed(k, x) + boxed(l, y) + boxed(m, z), k) == Some(x),
        found(boxed(k, x) + boxed(l, y) + boxed(m, z), l) == Some(y),
        found(boxed(k, x) + boxed(l, y) + boxed(m, z), m) == Some(z),
{
    let rest = boxed(l, y) + boxed(m, z);
    assert(boxed(k, x) + boxed(l, y) + boxed(m, z) =~= boxed(k, x) + rest);
    found_first(k.0, k.1, k.2, k.3, x, rest);
    passed_over(k, x, rest, l);
    passed_over(k, x, rest, m);
    pair_found(l, y, m, z);
}

proof fn tables_are_empty()
    ensures
        stts_box() == boxed(('s', 't', 't', 's'), zeros(8)),
        stsc_box() == boxed(('s', 't', 's', 'c'), zeros(8)),
        stsz_box() == boxed(('s', 't', 's', 'z'), zeros(12)),
        stco_box() == boxed(('s', 't', 'c', 'o'), zeros(8)),
{
    assert(full(0, 0, 0, 0) + be32(0) =~= zeros(8));
    assert(full(0, 0, 0, 0) + be32(0) + be32(0) =~= zeros(12));
}

/// The sample table holds the sample description, and tables without entries: the fragments say
/// where the samples are.
#[verifier::spinoff_prover]
#[verifier::rlimit(60)]
pub proof fn stbl_holds_empty_tables(t: Track)
    requires
        stbl_box(t).len() < 0x1_0000_0000,
    ensures
        ({
            let stbl = within(Some(stbl_box(t)), 's', 't', 'b', 'l');
            &&& within(stbl, 's', 't', 's', 'd') == box_content(stsd_box(t), 's', 't', 's', 'd')
            &&& within(stbl, 's', 't', 's', 'd') is Some
            &&& within(stbl, 's', 't', 't', 's') == Some(Seq::new(8, |i: int| 0u8))
            &&& within(stbl, 's', 't', 's', 'c') == Some(Seq::new(8, |i: int| 0u8))
            &&& within(stbl, 's', 't', 's', 'z') == Some(Seq::new(12, |i: int| 0u8))
            &&& within(stbl, 's', 't', 'c', 'o') == Some(Seq::new(8, |i: int| 0u8))
        }),
{
    let stsd = full(0, 0, 0, 0) + be32(1) + avc1_box(t);
    let content = stsd_box(t) + stts_box() + stsc_box() + stsz_box() + stco_box();
    box_len('s', 't', 'b', 'l', content);
    box_len('s', 't', 's', 'd', stsd);
    tables_are_empty();
    let (a, b, c, d) = (stts_box(), stsc_box(), stsz_box(), stco_box());
    assert(content =~= stsd_box(t) + (a + (b + (c + d))));
    found_first('s', 't', 'b', 'l', content, Seq::empty());
    found_first('s', 't', 's', 'd', stsd, a + (b + (c + d)));
    passed_over(('s', 't', 's', 'd'), stsd, a + (b + (c + d)), ('s', 't', 't', 's'));
    passed_over(('s', 't', 's', 'd'), stsd, a + (b + (c + d)), ('s', 't', 's', 'c'));
    passed_over(('s', 't', 's', 'd'), stsd, a + (b + (c + d)), ('s', 't', 's', 'z'));
    passed_over(('s', 't', 's', 'd'), stsd, a + (b + (c + d)), ('s', 't', 'c', 'o'));
    found_first('s', 't', 't', 's', zeros(8), b + (c + d));
    passed_over(('s', 't', 't', 's'), zeros(8), b + (c + d), ('s', 't', 's', 'c'));
    passed_over(('s', 't', 't', 's'), zeros(8), b + (c + d), ('s', 't', 's', 'z'));
    passed_over(('s', 't', 't', 's'), zeros(8), b + (c + d), ('s', 't', 'c', 'o'));
    found_first('s', 't', 's', 'c', zeros(8), c + d);
    passed_over(('s', 't', 's', 'c'), zeros(8), c + d, ('s', 't', 's', 'z'));
    passed_over(('s', 't', 's', 'c'), zeros(8), c + d, ('s', 't', 'c', 'o'));
    pair_found(('s', 't', 's', 'z'), zeros(12), ('s', 't', 'c', 'o'), zeros(8));
}

/// The media information: a video header, the note that the media stands in the same file, and
/// the sample table.
#[verifier::spinoff_prover]
#[verifier::rlimit(60)]
pub proof fn minf_holds_its_boxes(t: Track)
    requires
        minf_box(t).len() < 0x1_0000_0000,
    ensures
        ({
            let minf = within(Some(minf_box(t)), 'm', 'i', 'n', 'f');
            let vmhd = within(minf, 'v', 'm', 'h', 'd');
            let dref = within(within(minf, 'd', 'i', 'n', 'f'), 'd', 'r', 'e', 'f');
            &&& vmhd matches Some(s) && s.len() == 12 && be32_at(s, 0) == 1
            &&& dref matches Some(s) && same_file(s)
            &&& within(minf, 's', 't', 'b', 'l') == box_content(stbl_box(t), 's', 't', 'b', 'l')
            &&& within(minf, 's', 't', 'b', 'l') is Some
        }),
{
    let stbl = stsd_box(t) + stts_box() + stsc_box() + stsz_box() + stco_box();
    let vmhd = full(0, 0, 0, 1) + be16(0) + zeros(6);
    let content = vmhd_box() + dinf_box() + stbl_box(t);
    box_len('m', 'i', 'n', 'f', content);
    box_len('s', 't', 'b', 'l', stbl);
    assert(dref_box().len() == 28);
    found_first('m', 'i', 'n', 'f', content, Seq::empty());
    found_first('s', 't', 'b', 'l', stbl, Seq::empty());
    three_found(
        ('v', 'm', 'h', 'd'),
        vmhd,
        ('d', 'i', 'n', 'f'),
        dref_box(),
        ('s', 't', 'b', 'l'),
        stbl,
    );
    assert(vmhd.subrange(0, 4) =~= be32(1));
    be32_read(vmhd, 0, 1);
    dref_names_the_same_file();
}

/// Whether a data reference has one entry, which says that the media stands in the same file.
pub open spec fn same_file(s: Seq<u8>) -> bool {
    &&& be32_at(s, 0) == 0
    &&& be32_at(s, 4) == 1
    &&& box_content(s.skip(8), 'u', 'r', 'l', ' ') matches Some(url) && url.len() == 4 && be32_at(url, 0)
        == 1
}

proof fn dref_names_the_same_file()
    ensures
        box_content(dref_box(), 'd', 'r', 'e', 'f') matches Some(s) && same_file(s),
{
    let dref = full(0, 0, 0, 0) + be32(1) + be32(12) + tag('u', 'r', 'l', ' ') + full(0, 0, 0, 1);
    found_first('d', 'r', 'e', 'f', dref, Seq::empty());
    assert(dref.subrange(0, 4) =~= be32(0));
    assert(dref.subrange(4, 8) =~= be32(1));
    be32_read(dref, 0, 0);
    be32_read(dref, 4, 1);
    let url = full(0, 0, 0, 1);
    assert(dref.skip(8) =~= boxed(('u', 'r', 'l', ' '), url));
    found_first('u', 'r', 'l', ' ', url, Seq::empty());
    assert(url.subrange(0, 4) =~= be32(1));
    be32_read(url, 0, 1);
}

#[verifier::spinoff_prover]
#[verifier::rlimit(60)]
proof fn mdia_holds_its_boxes(t: Track)
    requires
        mdia_box(t).len() < 0x1_0000_0000,
    ensures
        minf_box(t).len() < mdia_box(t).len(),
        ({
            let mdia = within(Some(mdia_box(t)), 'm', 'd', 'i', 'a');
            &&& within(mdia, 'm', 'd', 'h', 'd') == box_content(mdhd_box(t), 'm', 'd', 'h', 'd')
            &&& within(mdia, 'h', 'd', 'l', 'r') == box_content(hdlr_box(), 'h', 'd', 'l', 'r')
            &&& within(mdia, 'm', 'i', 'n', 'f') == box_content(minf_box(t), 'm', 'i', 'n', 'f')
        }),
{
    let mdhd = full(0, 0, 0, 0) + be32(0) + be32(0) + be32(t.timescale as int) + be32(0) + be16(0x55c4) + be16(
        0,
    );
    let hdlr = full(0, 0, 0, 0) + be32(0) + tag('v', 'i', 'd', 'e') + zeros(12) + handler_name();
    let minf = vmhd_box() + dinf_box() + stbl_box(t);
    let content = mdhd_box(t) + hdlr_box() + minf_box(t);
    box_len('m', 'd', 'i', 'a', content);
    box_len('m', 'd', 'h', 'd', mdhd);
    box_len('h', 'd', 'l', 'r', hdlr);
    box_len('m', 'i', 'n', 'f', minf);
    found_first('m', 'd', 'i', 'a', content, Seq::empty());
    three_found(('m', 'd', 'h', 'd'), mdhd, ('h', 'd', 'l', 'r'), hdlr, ('m', 'i', 'n', 'f'), minf);
    found_first('m', 'd', 'h', 'd', mdhd, Seq::empty());
    found_first('h', 'd', 'l', 'r', hdlr, Seq::empty());
    found_first('m', 'i', 'n', 'f', minf, Seq::empty());
}

#[verifier::spinoff_prover]
#[verifier::rlimit(60)]
proof fn trak_holds_its_boxes(t: Track)
    requires
        trak_box(t).len() < 0x1_0000_0000,
    ensures
        mdia_box(t).len() < trak_box(t).len(),
        ({
            let trak = within(Some(trak_box(t)), 't', 'r', 'a', 'k');
            &&& within(trak, 't', 'k', 'h', 'd') == box_content(tkhd_box(t), 't', 'k', 'h', 'd')
            &&& within(trak, 'm', 'd', 'i', 'a') == box_content(mdia_box(t), 'm', 'd', 'i', 'a')
        }),
{
    let m = matrix();
    let tkhd = tkhd_head(t) + m + be32(t.width * 0x1_0000) + be32(t.height * 0x1_0000);
    let mdia = mdhd_box(t) + hdlr_box() + minf_box(t);
    let content = tkhd_box(t) + mdia_box(t);
    assert(tkhd_box(t) == boxed(('t', 'k', 'h', 'd'), tkhd));
    box_len('t', 'r', 'a', 'k', content);
    box_len('t', 'k', 'h', 'd', tkhd);
    box_len('m', 'd', 'i', 'a', mdia);
    found_first('t', 'r', 'a', 'k', content, Seq::empty());
    pair_found(('t', 'k', 'h', 'd'), tkhd, ('m', 'd', 'i', 'a'), mdia);
    found_first('t', 'k', 'h', 'd', tkhd, Seq::empty());
    found_first('m', 'd', 'i', 'a', mdia, Seq::empty());
}

#[verifier::spinoff_prover]
#[verifier::rlimit(60)]
proof fn moov_holds_its_boxes(t: Track)
    requires
        moov_box(t).len() < 0x1_0000_0000,
    ensures
        trak_box(t).len() < moov_box(t).len(),
        ({
            let moov = within(Some(moov_box(t)), 'm', 'o', 'o', 'v');
            &&& within(moov, 'm', 'v', 'h', 'd') == box_content(mvhd_box(t), 'm', 'v', 'h', 'd')
            &&& within(moov, 't', 'r', 'a', 'k') == box_content(trak_box(t), 't', 'r', 'a', 'k')
            &&& within(within(moov, 'm', 'v', 'e', 'x'), 't', 'r', 'e', 'x') == box_content(
                trex_box(t),
                't',
                'r',
                'e',
                'x',
            )
        }),
{
    let m = matrix();
    let mvhd = full(0, 0, 0, 0) + be32(0) + be32(0) + be32(t.timescale as int) + be32(0) + be32(0x0001_0000) + be16(
        0x0100,
    ) + zeros(2) + zeros(8) + m + zeros(24) + be32(2);
    let trak = tkhd_box(t) + mdia_box(t);
    let content = mvhd_box(t) + trak_box(t) + mvex_box(t);
    assert(mvhd_box(t) == boxed(('m', 'v', 'h', 'd'), mvhd));
    box_len('m', 'o', 'o', 'v', content);
    box_len('m', 'v', 'h', 'd', mvhd);
    box_len('t', 'r', 'a', 'k', trak);
    box_len('m', 'v', 'e', 'x', trex_box(t));
    found_first('m', 'o', 'o', 'v', content, Seq::empty());
    three_found(
        ('m', 'v', 'h', 'd'),
        mvhd,
        ('t', 'r', 'a', 'k'),
        trak,
        ('m', 'v', 'e', 'x'),
        trex_box(t),
    );
    found_first('m', 'v', 'h', 'd', mvhd, Seq::empty());
    found_first('t', 'r', 'a', 'k', trak, Seq::empty());
}

/// The four bytes at place `i` among words of four bytes.
pub open spec fn word_at(s: Seq<u8>, i: int) -> Seq<u8> {
    s.subrange(4 * i, 4 * i + 4)
}

proof fn words_stand_in_order(
    a: Seq<u8>,
    b: Seq<u8>,
    c: Seq<u8>,
    d: Seq<u8>,
    e: Seq<u8>,
    f: Seq<u8>,
    rest: Seq<u8>,
)
    requires
        a.len() == 4,
        b.len() == 4,
        c.len() == 4,
        d.len() == 4,
        e.len() == 4,
        f.len() == 4,
    ensures
        ({
            let s = a + b + c + d + e + f + rest;
            &&& s.len() == 24 + rest.len()
            &&& word_at(s, 0) == a && word_at(s, 1) == b && word_at(s, 2) == c
            &&& word_at(s, 3) == d && word_at(s, 4) == e && word_at(s, 5) == f
            &&& s.skip(24) == rest
        }),
{
    let s = a + b + c + d + e + f + rest;
    assert(word_at(s, 0) =~= a);
    assert(word_at(s, 1) =~= b);
    assert(word_at(s, 2) =~= c);
    assert(word_at(s, 3) =~= d);
    assert(word_at(s, 4) =~= e);
    assert(word_at(s, 5) =~= f);
    assert(s.skip(24) =~= rest);
}

/// The initialization segment begins with its brands: the major brand, a version, and the brands
/// that the file conforms to, the major one and CMAF among them.
pub proof fn init_segment_states_its_brands()
    ensures
        box_content(ftyp_box(), 'f', 't', 'y', 'p') matches Some(s) && s.len() == 32 && word_at(s, 0)
            == tag('i', 's', 'o', 'm') && word_at(s, 2) == word_at(s, 0) && word_at(s, 3) == tag(
            'i',
            's',
            'o',
            '6',
        ) && word_at(s, 4) == tag('c', 'm', 'f', 'c') && word_at(s, 5) == tag('c', 'm', 'f', 'v')
            && word_at(s.skip(24), 0) == tag('a', 'v', 'c', '1') && word_at(s.skip(24), 1) == tag(
            'm',
            'p',
            '4',
            '1',
        ) && be32_at(s, 4) == 0,
{
    let (iso, avc, mp4) = (tag('i', 's', 'o', 'm'), tag('a', 'v', 'c', '1'), tag('m', 'p', '4', '1'));
    let (iso6, cmfc, cmfv) = (tag('i', 's', 'o', '6'), tag('c', 'm', 'f', 'c'), tag('c', 'm', 'f', 'v'));
    let f = iso + be32(0) + iso + iso6 + cmfc + cmfv + avc + mp4;
    assert(f =~= iso + be32(0) + iso + iso6 + cmfc + cmfv + (avc + mp4));
    words_stand_in_order(iso, be32(0), iso, iso6, cmfc, cmfv, avc + mp4);
    assert(word_at(avc + mp4, 0) =~= avc);
    assert(word_at(avc + mp4, 1) =~= mp4);
    be32_read(f, 4, 0);
    found_first('f', 't', 'y', 'p', f, Seq::empty());
}

/// A media segment begins with its brands: the major brand, a version, and the brands that the
/// segment conforms to, the major one and CMAF among them.
pub proof fn media_segment_states_its_brands()
    ensures
        box_content(styp_box(), 's', 't', 'y', 'p') matches Some(s) && s.len() == 24 && word_at(s, 0)
            == tag('c', 'm', 'f', 'v') && word_at(s, 2) == tag('m', 's', 'd', 'h') && word_at(s, 3)
            == tag('m', 's', 'i', 'x') && word_at(s, 4) == tag('c', 'm', 'f', 'c') && word_at(s, 5)
            == word_at(s, 0) && be32_at(s, 4) == 0,
{
    let (cmfv, msdh) = (tag('c', 'm', 'f', 'v'), tag('m', 's', 'd', 'h'));
    let (msix, cmfc) = (tag('m', 's', 'i', 'x'), tag('c', 'm', 'f', 'c'));
    let s = cmfv + be32(0) + msdh + msix + cmfc + cmfv;
    assert(s =~= s + Seq::empty());
    words_stand_in_order(cmfv, be32(0), msdh, msix, cmfc, cmfv, Seq::empty());
    be32_read(s, 4, 0);
    found_first('s', 't', 'y', 'p', s, Seq::empty());
}

#[verifier::spinoff_prover]
#[verifier::rlimit(60)]
proof fn ftyp_is_passed_over(rest: Seq<u8>)
    ensures
        box_content(ftyp_box() + rest, 'm', 'o', 'o', 'v') == box_content(rest, 'm', 'o', 'o', 'v'),
{
    let ftyp = tag('i', 's', 'o', 'm') + be32(0) + tag('i', 's', 'o', 'm') + tag('i', 's', 'o', '6') + tag(
        'c',
        'm',
        'f',
        'c',
    ) + tag('c', 'm', 'f', 'v') + tag('a', 'v', 'c', '1') + tag('m', 'p', '4', '1');
    passed_over(('f', 't', 'y', 'p'), ftyp, rest, ('m', 'o', 'o', 'v'));
}

proof fn boxes_shrink(t: Track)
    ensures
        stbl_box(t).len() < minf_box(t).len(),
        16 + avc1_box(t).len() < stbl_box(t).len(),
{
    let minf = vmhd_box() + dinf_box() + stbl_box(t);
    box_len('m', 'i', 'n', 'f', minf);
    let stbl = stsd_box(t) + stts_box() + stsc_box() + stsz_box() + stco_box();
    box_len('s', 't', 'b', 'l', stbl);
    let stsd = full(0, 0, 0, 0) + be32(1) + avc1_box(t);
    box_len('s', 't', 's', 'd', stsd);
}

/// The initialization segment gives back what it was made with, at the places where a reader of the
/// format looks: the timescale in the media header, where it is the unit of the fragments' times,
/// and in the movie header; the track's number in its header and in its defaults; width and height
/// in the track header; the handler of video; and the sample description in the sample table.
#[verifier::spinoff_prover]
#[verifier::rlimit(60)]
pub proof fn init_segment_states_the_track(t: Track)
    requires
        moov_box(t).len() < 0x1_0000_0000,
    ensures
        ({
            let moov = within(Some(init_segment(t)), 'm', 'o', 'o', 'v');
            let trak = within(moov, 't', 'r', 'a', 'k');
            let mdia = within(trak, 'm', 'd', 'i', 'a');
            let stbl = within(within(mdia, 'm', 'i', 'n', 'f'), 's', 't', 'b', 'l');
            &&& within(mdia, 'm', 'd', 'h', 'd') matches Some(s) && s.len() == 24 && be32_at(s, 12)
                == t.timescale
            &&& within(moov, 'm', 'v', 'h', 'd') matches Some(s) && s.len() == 100 && be32_at(s, 12)
                == t.timescale
            &&& within(trak, 't', 'k', 'h', 'd') matches Some(s) && s.len() == 84 && be32_at(s, 12)
                == t.track_id && be32_at(s, 76) == t.width % 0x1_0000 * 0x1_0000 && be32_at(s, 80)
                == t.height % 0x1_0000 * 0x1_0000
            &&& within(within(moov, 'm', 'v', 'e', 'x'), 't', 'r', 'e', 'x') matches Some(s) && s.len() == 24
                && be32_at(s, 4) == t.track_id
            &&& within(mdia, 'h', 'd', 'l', 'r') matches Some(s) && s.subrange(8, 12) == tag(
                'v',
                'i',
                'd',
                'e',
            )
            &&& within(stbl, 's', 't', 's', 'd') matches Some(s) && be32_at(s, 4) == 1 && s.skip(8)
                == avc1_box(t)
        }),
{
    ftyp_is_passed_over(moov_box(t));
    moov_holds_its_boxes(t);
    trak_holds_its_boxes(t);
    mdia_holds_its_boxes(t);
    minf_holds_its_boxes(t);
    boxes_shrink(t);
    stbl_holds_empty_tables(t);
    stsd_states_one_entry(t);
    mdhd_states_the_timescale(t);
    mvhd_states_the_timescale(t);
    tkhd_states_the_track(t);
    trex_states_the_track(t);
    hdlr_states_video();
    assert(tag('v', 'i', 'd', 'e') =~= seq!['v' as u8, 'i' as u8, 'd' as u8, 'e' as u8]);
}

/// The fragment header states the number of the segment.
pub proof fn mfhd_states_the_number(sequence_number: u32)
    ensures
        box_content(mfhd_box(sequence_number), 'm', 'f', 'h', 'd') matches Some(s) && s.len() == 8
            && be32_at(s, 0) == 0 && be32_at(s, 4) == sequence_number,
{
    let s = full(0, 0, 0, 0) + be32(sequence_number as int);
    assert(s.subrange(0, 4) =~= be32(0));
    assert(s.subrange(4, 8) =~= be32(sequence_number as int));
    be32_read(s, 0, 0);
    be32_read(s, 4, sequence_number as int);
    found_first('m', 'f', 'h', 'd', s, Seq::empty());
}

/// The track fragment header states the track, and that offsets count from the start of moof.
pub proof fn tfhd_states_the_track(track_id: u32)
    ensures
        box_content(tfhd_box(track_id), 't', 'f', 'h', 'd') matches Some(s) && s.len() == 8 && be32_at(s, 0)
            == 0x02_0000 && be32_at(s, 4) == track_id,
{
    let s = full(0, 2, 0, 0) + be32(track_id as int);
    assert(s.subrange(0, 4) =~= be32(0x02_0000));
    assert(s.subrange(4, 8) =~= be32(track_id as int));
    be32_read(s, 0, 0x02_0000);
    be32_read(s, 4, track_id as int);
    found_first('t', 'f', 'h', 'd', s, Seq::empty());
}

/// The decode time of the first frame stands in 64 bits, as version 1 of the box says.
pub proof fn tfdt_states_the_time(base_dts: i64)
    ensures
        box_content(tfdt_box(base_dts), 't', 'f', 'd', 't') matches Some(s) && s.len() == 12 && be32_at(s, 0)
            == 0x0100_0000 && be64_at(s, 4) == base_dts as int % 0x1_0000_0000_0000_0000,
{
    let s = full(1, 0, 0, 0) + be64(base_dts as int);
    assert(s.subrange(0, 4) =~= be32(0x0100_0000));
    assert(s.subrange(4, 12) =~= be64(base_dts as int));
    be32_read(s, 0, 0x0100_0000);
    be64_read(s, 4, base_dts as int);
    found_first('t', 'f', 'd', 't', s, Seq::empty());
}

proof fn entry_of(samples: Seq<Sample>, i: int)
    requires
        0 <= i < samples.len(),
    ensures
        sample_entries(samples).len() == 16 * samples.len(),
        sample_entries(samples).subrange(16 * i, 16 * i + 16) == sample_entry(samples[i]),
    decreases samples.len(),
{
    let before = samples.drop_last();
    entries_len(before);
    let all = sample_entries(samples);
    if i == before.len() {
        assert(all.subrange(16 * i, 16 * i + 16) =~= sample_entry(samples[i]));
    } else {
        entry_of(before, i);
        assert(all.subrange(16 * i, 16 * i + 16) =~= sample_entries(before).subrange(16 * i, 16 * i + 16));
    }
}

proof fn entries_len(samples: Seq<Sample>)
    ensures
        sample_entries(samples).len() == 16 * samples.len(),
    decreases samples.len(),
{
    if samples.len() > 0 {
        entries_len(samples.drop_last());
    }
}

/// Whether the 16 bytes at `at` describe a sample: its duration, its size, whether a decoder can
/// start there (it depends on no other sample, or it depends on others and is no sync sample), and
/// how much later than decoded it is shown.
#[verifier::opaque]
pub open spec fn describes(s: Seq<u8>, at: int, sample: Sample) -> bool {
    let flags = be32_at(s, at + 8);
    &&& be32_at(s, at) == sample.duration
    &&& be32_at(s, at + 4) == sample.data.len() as int % 0x1_0000_0000
    &&& flags / 0x0100_0000 % 4 == (if sample.is_sync {
        2int
    } else {
        1
    })
    &&& flags / 0x1_0000 % 2 == (if sample.is_sync {
        0int
    } else {
        1
    })
    &&& be32_at(s, at + 12) == sample.composition_offset as int % 0x1_0000_0000
}

#[verifier::spinoff_prover]
#[verifier::rlimit(60)]
proof fn entry_describes(sample: Sample)
    ensures
        sample_entry(sample).len() == 16,
        describes(sample_entry(sample), 0, sample),
{
    reveal(describes);
    let s = sample_entry(sample);
    let flags: int = if sample.is_sync {
        0x0200_0000
    } else {
        0x0101_0000
    };
    assert(s.subrange(0, 4) =~= be32(sample.duration as int));
    assert(s.subrange(4, 8) =~= be32(sample.data.len() as int));
    assert(s.subrange(8, 12) =~= be32(flags));
    assert(s.subrange(12, 16) =~= be32(sample.composition_offset as int));
    be32_read(s, 0, sample.duration as int);
    be32_read(s, 4, sample.data.len() as int);
    be32_read(s, 8, flags);
    be32_read(s, 12, sample.composition_offset as int);
}

proof fn describes_where_it_stands(e: Seq<u8>, s: Seq<u8>, at: int, sample: Sample)
    requires
        0 <= at,
        at + 16 <= s.len(),
        s.subrange(at, at + 16) == e,
        describes(e, 0, sample),
    ensures
        describes(s, at, sample),
{
    reveal(describes);
    assert(s[at] == e[0] && s[at + 1] == e[1] && s[at + 2] == e[2] && s[at + 3] == e[3]);
    assert(s[at + 4] == e[4] && s[at + 5] == e[5] && s[at + 6] == e[6] && s[at + 7] == e[7]);
    assert(s[at + 8] == e[8] && s[at + 9] == e[9] && s[at + 10] == e[10] && s[at + 11] == e[11]);
    assert(s[at + 12] == e[12] && s[at + 13] == e[13] && s[at + 14] == e[14] && s[at + 15] == e[15]);
}

proof fn described_at(head: Seq<u8>, samples: Seq<Sample>, i: int)
    requires
        0 <= i < samples.len(),
    ensures
        describes(head + sample_entries(samples), head.len() + 16 * i, samples[i]),
{
    let entries = sample_entries(samples);
    entry_of(samples, i);
    entry_describes(samples[i]);
    let s = head + entries;
    let at = head.len() + 16 * i;
    assert(s.subrange(at, at + 16) =~= entries.subrange(16 * i, 16 * i + 16));
    describes_where_it_stands(sample_entry(samples[i]), s, at, samples[i]);
}

/// The track run: its flags say which fields are there, it states how many samples there are and
/// where their data begins, and describes each.
pub proof fn trun_describes_the_samples(samples: Seq<Sample>)
    requires
        96 + 16 * samples.len() < 0x1_0000_0000,
    ensures
        box_content(trun_box(samples), 't', 'r', 'u', 'n') matches Some(s) && s.len() == 12 + 16
            * samples.len() && be32_at(s, 0) == 0x0F01 && be32_at(s, 4) == samples.len() && be32_at(s, 8)
            == data_offset(samples) && (forall|i: int|
            0 <= i < samples.len() ==> describes(s, 12 + 16 * i, #[trigger] samples[i])),
{
    trun_found(samples);
    trun_fields(samples);
}

#[verifier::opaque]
spec fn trun_start(n: int, offset: int) -> Seq<u8> {
    full(0, 0x00, 0x0F, 0x01) + be32(n) + be32(offset)
}

#[verifier::opaque]
spec fn trun_content(samples: Seq<Sample>) -> Seq<u8> {
    trun_start(samples.len() as int, data_offset(samples)) + sample_entries(samples)
}

#[verifier::spinoff_prover]
#[verifier::rlimit(60)]
proof fn trun_found(samples: Seq<Sample>)
    requires
        96 + 16 * samples.len() < 0x1_0000_0000,
    ensures
        box_content(trun_box(samples), 't', 'r', 'u', 'n') == Some(trun_content(samples)),
        trun_content(samples).len() == 12 + 16 * samples.len(),
{
    reveal(trun_start);
    reveal(trun_content);
    entries_len(samples);
    found_first('t', 'r', 'u', 'n', trun_content(samples), Seq::empty());
}

#[verifier::spinoff_prover]
#[verifier::rlimit(60)]
proof fn trun_fields(samples: Seq<Sample>)
    requires
        96 + 16 * samples.len() < 0x1_0000_0000,
    ensures
        be32_at(trun_content(samples), 0) == 0x0F01,
        be32_at(trun_content(samples), 4) == samples.len(),
        be32_at(trun_content(samples), 8) == data_offset(samples),
        forall|i: int|
            0 <= i < samples.len() ==> describes(trun_content(samples), 12 + 16 * i, #[trigger] samples[i]),
{
    reveal(trun_content);
    let head = trun_start(samples.len() as int, data_offset(samples));
    trun_head(samples.len() as int, data_offset(samples), sample_entries(samples));
    all_described(head, samples);
}

proof fn all_described(head: Seq<u8>, samples: Seq<Sample>)
    ensures
        forall|i: int|
            0 <= i < samples.len() ==> describes(
                head + sample_entries(samples),
                head.len() + 16 * i,
                #[trigger] samples[i],
            ),
{
    assert forall|i: int| 0 <= i < samples.len() implies describes(
        head + sample_entries(samples),
        head.len() + 16 * i,
        #[trigger] samples[i],
    ) by {
        described_at(head, samples, i);
    }
}

proof fn three_words(a: Seq<u8>, b: Seq<u8>, c: Seq<u8>, rest: Seq<u8>)
    requires
        a.len() == 4,
        b.len() == 4,
        c.len() == 4,
    ensures
        (a + b + c + rest).len() == 12 + rest.len(),
        (a + b + c + rest).subrange(0, 4) == a,
        (a + b + c + rest).subrange(4, 8) == b,
        (a + b + c + rest).subrange(8, 12) == c,
{
    let s = a + b + c + rest;
    assert(s.subrange(0, 4) =~= a);
    assert(s.subrange(4, 8) =~= b);
    assert(s.subrange(8, 12) =~= c);
}

#[verifier::spinoff_prover]
#[verifier::rlimit(60)]
proof fn trun_head(n: int, offset: int, entries: Seq<u8>)
    ensures
        ({
            let s = trun_start(n, offset) + entries;
            &&& trun_start(n, offset).len() == 12
            &&& be32_at(s, 0) == 0x0F01
            &&& be32_at(s, 4) == n % 0x1_0000_0000
            &&& be32_at(s, 8) == offset % 0x1_0000_0000
        }),
{
    reveal(trun_start);
    let s = trun_start(n, offset) + entries;
    assert(full(0, 0x00, 0x0F, 0x01) =~= be32(0x0F01));
    three_words(full(0, 0x00, 0x0F, 0x01), be32(n), be32(offset), entries);
    be32_read(s, 0, 0x0F01);
    be32_read(s, 4, n);
    be32_read(s, 8, offset);
}

/// How many bytes of the payload stand before a sample.
pub open spec fn bytes_before(samples: Seq<Sample>, i: int) -> int
    decreases i,
{
    if i <= 0 {
        0
    } else {
        bytes_before(samples, i - 1) + samples[i - 1].data.len()
    }
}

proof fn payload_grows(samples: Seq<Sample>, n: int)
    requires
        0 <= n <= samples.len(),
    ensures
        payload(samples.take(n)).len() == bytes_before(samples, n),
        bytes_before(samples, n) <= payload(samples).len(),
        payload(samples).take(bytes_before(samples, n)) == payload(samples.take(n)),
    decreases samples.len() - n, n,
{
    payload_len(samples, n);
    if n == samples.len() {
        assert(samples.take(n) =~= samples);
        assert(payload(samples).take(payload(samples).len() as int) =~= payload(samples));
    } else {
        payload_grows(samples, n + 1);
        assert(samples.take(n + 1).drop_last() =~= samples.take(n));
        assert(payload(samples).take(bytes_before(samples, n)) =~= payload(samples).take(
            bytes_before(samples, n + 1),
        ).take(bytes_before(samples, n)));
        assert(payload(samples.take(n + 1)).take(bytes_before(samples, n)) =~= payload(samples.take(n)));
    }
}

proof fn payload_len(samples: Seq<Sample>, n: int)
    requires
        0 <= n <= samples.len(),
    ensures
        payload(samples.take(n)).len() == bytes_before(samples, n),
    decreases n,
{
    if n > 0 {
        payload_len(samples, n - 1);
        assert(samples.take(n).drop_last() =~= samples.take(n - 1));
    }
}

/// In the payload each sample's bytes stand behind those of the samples before it.
pub proof fn sample_stands_in_the_payload(samples: Seq<Sample>, i: int)
    requires
        0 <= i < samples.len(),
    ensures
        0 <= bytes_before(samples, i),
        bytes_before(samples, i) + samples[i].data.len() <= payload(samples).len(),
        payload(samples).subrange(
            bytes_before(samples, i),
            bytes_before(samples, i) + samples[i].data.len(),
        ) == samples[i].data,
{
    payload_len(samples, i);
    payload_grows(samples, i + 1);
    let upto = payload(samples.take(i + 1));
    let start = bytes_before(samples, i);
    let end = bytes_before(samples, i + 1);
    assert(samples.take(i + 1).drop_last() =~= samples.take(i));
    assert(payload(samples).subrange(start, end) =~= payload(samples).take(end).subrange(start, end));
    assert(upto.subrange(start, end) =~= samples[i].data);
}

#[verifier::spinoff_prover]
#[verifier::rlimit(60)]
proof fn traf_holds_its_boxes(track_id: u32, base_dts: i64, samples: Seq<Sample>)
    requires
        96 + 16 * samples.len() < 0x1_0000_0000,
    ensures
        ({
            let traf = within(Some(traf_box(track_id, base_dts, samples)), 't', 'r', 'a', 'f');
            &&& within(traf, 't', 'f', 'h', 'd') == box_content(tfhd_box(track_id), 't', 'f', 'h', 'd')
            &&& within(traf, 't', 'f', 'd', 't') == box_content(tfdt_box(base_dts), 't', 'f', 'd', 't')
            &&& within(traf, 't', 'r', 'u', 'n') == box_content(trun_box(samples), 't', 'r', 'u', 'n')
        }),
{
    let tfhd = full(0, 2, 0, 0) + be32(track_id as int);
    let tfdt = full(1, 0, 0, 0) + be64(base_dts as int);
    let trun = full(0, 0x00, 0x0F, 0x01) + be32(samples.len() as int) + be32(data_offset(samples))
        + sample_entries(samples);
    entries_len(samples);
    let content = tfhd_box(track_id) + tfdt_box(base_dts) + trun_box(samples);
    box_len('t', 'f', 'h', 'd', tfhd);
    box_len('t', 'f', 'd', 't', tfdt);
    box_len('t', 'r', 'u', 'n', trun);
    found_first('t', 'r', 'a', 'f', content, Seq::empty());
    three_found(('t', 'f', 'h', 'd'), tfhd, ('t', 'f', 'd', 't'), tfdt, ('t', 'r', 'u', 'n'), trun);
    found_first('t', 'f', 'h', 'd', tfhd, Seq::empty());
    found_first('t', 'f', 'd', 't', tfdt, Seq::empty());
    found_first('t', 'r', 'u', 'n', trun, Seq::empty());
}

proof fn moof_holds_its_boxes(sequence_number: u32, traf: Seq<u8>)
    requires
        32 + traf.len() < 0x1_0000_0000,
    ensures
        ({
            let moof = Some(
                mfhd_box(sequence_number) + boxed(('t', 'r', 'a', 'f'), traf),
            );
            &&& within(moof, 'm', 'f', 'h', 'd') == box_content(
                mfhd_box(sequence_number),
                'm',
                'f',
                'h',
                'd',
            )
            &&& within(moof, 't', 'r', 'a', 'f') == Some(traf)
        }),
{
    let mfhd = full(0, 0, 0, 0) + be32(sequence_number as int);
    pair_found(('m', 'f', 'h', 'd'), mfhd, ('t', 'r', 'a', 'f'), traf);
    found_first('m', 'f', 'h', 'd', mfhd, Seq::empty());
}

#[verifier::spinoff_prover]
#[verifier::rlimit(60)]
proof fn segment_holds_its_boxes(moof: Seq<u8>, mdat: Seq<u8>)
    requires
        8 + moof.len() < 0x1_0000_0000,
        8 + mdat.len() < 0x1_0000_0000,
    ensures
        ({
            let s = styp_box() + boxed(('m', 'o', 'o', 'f'), moof) + boxed(('m', 'd', 'a', 't'), mdat);
            &&& box_content(s, 'm', 'o', 'o', 'f') == Some(moof)
            &&& box_content(s, 'm', 'd', 'a', 't') == Some(mdat)
        }),
{
    let styp = tag('c', 'm', 'f', 'v') + be32(0) + tag('m', 's', 'd', 'h') + tag('m', 's', 'i', 'x') + tag(
        'c',
        'm',
        'f',
        'c',
    ) + tag('c', 'm', 'f', 'v');
    three_found(('s', 't', 'y', 'p'), styp, ('m', 'o', 'o', 'f'), moof, ('m', 'd', 'a', 't'), mdat);
}

/// A media segment states, at the places where a reader of the format looks: its number, the
/// track, the decode time of its first frame, and of each frame the duration, the size, whether
/// decoding can start there, and the composition offset. Counted from the start of moof, the data
/// offset that it states is where the payload begins.
#[verifier::spinoff_prover]
#[verifier::rlimit(60)]
pub proof fn media_segment_describes_its_frames(
    sequence_number: u32,
    track_id: u32,
    base_dts: i64,
    samples: Seq<Sample>,
)
    requires
        96 + 16 * samples.len() < 0x1_0000_0000,
        8 + payload(samples).len() < 0x1_0000_0000,
    ensures
        ({
            let segment = media_segment(sequence_number, track_id, base_dts, samples);
            let moof = within(Some(segment), 'm', 'o', 'o', 'f');
            let traf = within(moof, 't', 'r', 'a', 'f');
            &&& within(moof, 'm', 'f', 'h', 'd') matches Some(s) && be32_at(s, 4) == sequence_number
            &&& within(traf, 't', 'f', 'h', 'd') matches Some(s) && be32_at(s, 4) == track_id
            &&& within(traf, 't', 'f', 'd', 't') matches Some(s) && s[0] == 1 && be64_at(s, 4)
                == base_dts as int % 0x1_0000_0000_0000_0000
            &&& within(traf, 't', 'r', 'u', 'n') matches Some(s) && be32_at(s, 0) == 0x0F01 && be32_at(s, 4)
                == samples.len() && (forall|i: int|
                0 <= i < samples.len() ==> describes(s, 12 + 16 * i, #[trigger] samples[i]))
                && segment.skip(styp_box().len() as int).skip(be32_at(s, 8)) == payload(samples)
            &&& within(Some(segment), 'm', 'd', 'a', 't') == Some(payload(samples))
        }),
{
    let traf = tfhd_box(track_id) + tfdt_box(base_dts) + trun_box(samples);
    let moof = mfhd_box(sequence_number) + traf_box(track_id, base_dts, samples);
    moof_len(sequence_number, track_id, base_dts, samples);
    box_len('m', 'o', 'o', 'f', moof);
    box_len('t', 'r', 'a', 'f', traf);
    segment_holds_its_boxes(moof, payload(samples));
    moof_holds_its_boxes(sequence_number, traf);
    traf_holds_its_boxes(track_id, base_dts, samples);
    found_first('t', 'r', 'a', 'f', traf, Seq::empty());
    mfhd_states_the_number(sequence_number);
    tfhd_states_the_track(track_id);
    tfdt_states_the_time(base_dts);
    trun_describes_the_samples(samples);
    data_offset_is_where_the_payload_starts(sequence_number, track_id, base_dts, samples);
    skip_first(
        styp_box(),
        moof_box(sequence_number, track_id, base_dts, samples),
        mdat_box(samples),
    );
}

proof fn skip_first(x: Seq<u8>, y: Seq<u8>, z: Seq<u8>)
    ensures
        (x + y + z).skip(x.len() as int) == y + z,
{
    assert((x + y + z).skip(x.len() as int) =~= y + z);
}

} // verus!
