//! What the demuxer reads of what the muxer wrote.

use super::demux::{
    avcc_params, kind_is, media_nals, param_sets, scan_init, split_prefixed, Scan, StreamParams,
};
use super::layout::{
    avc1_box, avc1_fields, avcc_box, avcc_content, compressor_name, dinf_box, dref_box,
    ftyp_box, full, handler_name, hdlr_box, init_segment, matrix, mdat_box, mdhd_box,
    mdia_box, media_segment, mfhd_box, minf_box, moof_box, moof_len, moov_box, mp4_box,
    mvex_box, mvhd_box, payload, stbl_box, stco_box, stsc_box, stsd_box, stsz_box, stts_box,
    styp_box, tag, tkhd_box, traf_box, trak_box, trex_box, vmhd_box, zeros, Sample, Track,
};
use super::length_prefixed;
use crate::endian::{
    be16, be16_at, be16_round_trip, be32, be32_at, be32_round_trip,
};
use vstd::prelude::*;

verus! {

/// NAL units whose lengths fit in 32 bits.
pub open spec fn short_nals(nals: Seq<Seq<u8>>) -> bool {
    forall|i: int| 0 <= i < nals.len() ==> (#[trigger] nals[i]).len() < 0x1_0000_0000
}

proof fn split_one(nal: Seq<u8>, rest: Seq<u8>)
    requires
        nal.len() < 0x1_0000_0000,
    ensures
        split_prefixed(be32(nal.len() as int) + nal + rest) == seq![nal] + split_prefixed(rest),
{
    let s = be32(nal.len() as int) + nal + rest;
    be32_round_trip(nal.len() as int);
    assert(be32_at(s, 0) == be32_at(be32(nal.len() as int), 0));
    assert(s.subrange(4, 4 + nal.len() as int) =~= nal);
    assert(s.skip(4 + nal.len() as int) =~= rest);
}

proof fn split_prefix(nals: Seq<Seq<u8>>, rest: Seq<u8>)
    requires
        short_nals(nals),
    ensures
        split_prefixed(length_prefixed(nals) + rest) == nals + split_prefixed(rest),
    decreases nals.len(),
{
    if nals.len() == 0 {
        assert(length_prefixed(nals) + rest =~= rest);
        assert(nals + split_prefixed(rest) =~= split_prefixed(rest));
    } else {
        let front = nals.drop_last();
        let last = nals.last();
        let tail = be32(last.len() as int) + last + rest;
        assert(length_prefixed(nals) + rest =~= length_prefixed(front) + tail);
        assert(short_nals(front)) by {
            assert(forall|i: int| 0 <= i < front.len() ==> front[i] == nals[i]);
        }
        split_prefix(front, tail);
        split_one(last, rest);
        assert(front + (seq![last] + split_prefixed(rest)) =~= nals + split_prefixed(rest));
    }
}

/// Splitting length-prefixed NAL units gives the NAL units back, in order.
pub proof fn prefixed_nals_split_back(nals: Seq<Seq<u8>>)
    requires
        short_nals(nals),
    ensures
        split_prefixed(length_prefixed(nals)) == nals,
{
    split_prefix(nals, Seq::empty());
    assert(length_prefixed(nals) + Seq::<u8>::empty() =~= length_prefixed(nals));
    assert(split_prefixed(Seq::empty()) =~= Seq::<Seq<u8>>::empty());
    assert(nals + Seq::<Seq<u8>>::empty() =~= nals);
}

proof fn first_box(a: char, b: char, c: char, d: char, content: Seq<u8>, rest: Seq<u8>)
    requires
        8 + content.len() < 0x1_0000_0000,
    ensures
        ({
            let s = mp4_box(tag(a, b, c, d), content) + rest;
            let size = 8 + content.len() as int;
            &&& s.len() == size + rest.len()
            &&& be32_at(s, 0) == size
            &&& s[4] == a as u8
            &&& s[5] == b as u8
            &&& s[6] == c as u8
            &&& s[7] == d as u8
            &&& s.subrange(8, size) == content
            &&& s.skip(size) == rest
        }),
{
    let size = 8 + content.len() as int;
    let s = mp4_box(tag(a, b, c, d), content) + rest;
    be32_round_trip(size);
    assert(be32_at(s, 0) == be32_at(be32(size), 0));
    assert(s.subrange(8, size) =~= content);
    assert(s.skip(size) =~= rest);
}

/// Whether the demuxer passes over boxes of this type.
spec fn plain(a: char, b: char, c: char, d: char) -> bool {
    let s = seq![0u8, 0, 0, 0, a as u8, b as u8, c as u8, d as u8];
    !kind_is(s, 'm', 'o', 'o', 'v') && !kind_is(s, 't', 'r', 'a', 'k') && !kind_is(
        s,
        'm',
        'd',
        'i',
        'a',
    ) && !kind_is(s, 'm', 'i', 'n', 'f') && !kind_is(s, 's', 't', 'b', 'l') && !kind_is(
        s,
        's',
        't',
        's',
        'd',
    ) && !kind_is(s, 'a', 'v', 'c', '1') && !kind_is(s, 'a', 'v', 'c', 'C')
}

proof fn scan_passes_over(a: char, b: char, c: char, d: char, content: Seq<u8>, rest: Seq<u8>)
    requires
        plain(a, b, c, d),
        8 + content.len() < 0x1_0000_0000,
    ensures
        scan_init(mp4_box(tag(a, b, c, d), content) + rest) == scan_init(rest),
{
    first_box(a, b, c, d, content, rest);
}

proof fn scan_enters(a: char, b: char, c: char, d: char, content: Seq<u8>, rest: Seq<u8>)
    requires
        (a, b, c, d) == ('m', 'o', 'o', 'v') || (a, b, c, d) == ('t', 'r', 'a', 'k') || (a, b, c, d) == (
            'm',
            'd',
            'i',
            'a',
        ) || (a, b, c, d) == ('m', 'i', 'n', 'f') || (a, b, c, d) == ('s', 't', 'b', 'l'),
        8 + content.len() < 0x1_0000_0000,
        scan_init(content) is Found,
    ensures
        scan_init(mp4_box(tag(a, b, c, d), content) + rest) == scan_init(content),
{
    first_box(a, b, c, d, content, rest);
}

proof fn params_of_content(sps: Seq<u8>, pps: Seq<u8>)
    requires
        0 < sps.len() < 0x1_0000,
        0 < pps.len() < 0x1_0000,
    ensures
        avcc_params(avcc_content(sps, pps)) == Some(StreamParams { sps, pps, width: 0, height: 0 }),
{
    let s = avcc_content(sps, pps);
    let n = sps.len() as int;
    let m = pps.len() as int;
    assert(s.len() == 11 + n + m);
    assert(s[5] == 0xE1);
    be16_round_trip(n);
    be16_round_trip(m);
    assert(s[6] == be16(n)[0] && s[7] == be16(n)[1]);
    assert(be16_at(s, 6) == n);
    assert(s.subrange(8, 8 + n) =~= sps);
    reveal_with_fuel(param_sets, 2);
    assert(param_sets(s, 6, 1, Seq::empty()) == Some((sps, 8 + n)));
    assert(s[8 + n] == 1);
    assert(s[9 + n] == be16(m)[0] && s[10 + n] == be16(m)[1]);
    assert(be16_at(s, 9 + n) == m);
    assert(s.subrange(11 + n, 11 + n + m) =~= pps);
    assert(param_sets(s, 9 + n, 1, Seq::empty()) == Some((pps, 11 + n + m)));
}

/// What is read back of a track.
pub open spec fn read_back(t: Track) -> StreamParams {
    StreamParams {
        sps: t.sps,
        pps: t.pps,
        width: (t.width % 0x1_0000) as u32,
        height: (t.height % 0x1_0000) as u32,
    }
}

proof fn scan_avcc(t: Track)
    requires
        0 < t.sps.len() < 0x1_0000,
        0 < t.pps.len() < 0x1_0000,
    ensures
        avcc_box(t).len() == 19 + t.sps.len() + t.pps.len(),
        scan_init(avcc_box(t)) == Scan::Found(
            StreamParams { sps: t.sps, pps: t.pps, width: 0, height: 0 },
        ),
{
    let content = avcc_content(t.sps, t.pps);
    params_of_content(t.sps, t.pps);
    assert(content.len() == 11 + t.sps.len() + t.pps.len());
    first_box('a', 'v', 'c', 'C', content, Seq::empty());
    assert(avcc_box(t) + Seq::<u8>::empty() =~= avcc_box(t));
}

proof fn avc1_fields_hold(t: Track)
    ensures
        avc1_fields(t).len() == 78,
        be16_at(avc1_fields(t), 24) == t.width % 0x1_0000,
        be16_at(avc1_fields(t), 26) == t.height % 0x1_0000,
{
    let head = zeros(6) + be16(1) + be16(0) + be16(0) + zeros(12);
    let dims = head + be16(t.width as int) + be16(t.height as int);
    let s = avc1_fields(t);
    be16_round_trip(t.width as int);
    be16_round_trip(t.height as int);
    assert(head.len() == 24);
    assert(dims[24] == be16(t.width as int)[0] && dims[25] == be16(t.width as int)[1]);
    assert(dims[26] == be16(t.height as int)[0] && dims[27] == be16(t.height as int)[1]);
    assert(compressor_name().len() == 32);
    assert(s.len() == 78);
    assert(forall|i: int| 24 <= i < 28 ==> s[i] == dims[i]);
}

proof fn scan_avc1(t: Track)
    requires
        0 < t.sps.len() < 0x1_0000,
        0 < t.pps.len() < 0x1_0000,
    ensures
        avc1_box(t).len() == 105 + t.sps.len() + t.pps.len(),
        scan_init(avc1_box(t)) == Scan::Found(read_back(t)),
{
    let fields = avc1_fields(t);
    let content = fields + avcc_box(t);
    scan_avcc(t);
    avc1_fields_hold(t);
    first_box('a', 'v', 'c', '1', content, Seq::empty());
    let s = avc1_box(t) + Seq::<u8>::empty();
    assert(avc1_box(t) =~= s);
    assert(s.subrange(86, s.len() as int) =~= avcc_box(t)) by {
        assert(s.subrange(8, s.len() as int) == content);
        assert(forall|i: int| 0 <= i < content.len() ==> content[i] == #[trigger] s[i + 8]);
    }
    assert(be16_at(s, 32) == be16_at(fields, 24)) by {
        assert(s[32] == s.subrange(8, s.len() as int)[24]);
        assert(s[33] == s.subrange(8, s.len() as int)[25]);
    }
    assert(be16_at(s, 34) == be16_at(fields, 26)) by {
        assert(s[34] == s.subrange(8, s.len() as int)[26]);
        assert(s[35] == s.subrange(8, s.len() as int)[27]);
    }
}

proof fn scan_stsd(t: Track, rest: Seq<u8>)
    requires
        0 < t.sps.len() < 0x1_0000,
        0 < t.pps.len() < 0x1_0000,
    ensures
        stsd_box(t).len() == 121 + t.sps.len() + t.pps.len(),
        scan_init(stsd_box(t) + rest) == Scan::Found(read_back(t)),
{
    let content = full(0, 0, 0, 0) + be32(1) + avc1_box(t);
    scan_avc1(t);
    first_box('s', 't', 's', 'd', content, rest);
    let s = stsd_box(t) + rest;
    let size = 8 + content.len() as int;
    assert(s.subrange(16, size) =~= avc1_box(t)) by {
        assert(s.subrange(8, size) == content);
        assert(forall|i: int| 0 <= i < content.len() ==> content[i] == #[trigger] s[i + 8]);
    }
}

/// A container box that holds `before`, then `inner`, then `after`, where the demuxer passes
/// over `before` and finds what it looks for in `inner`.
proof fn scan_container(
    a: char,
    b: char,
    c: char,
    d: char,
    content: Seq<u8>,
    rest: Seq<u8>,
    p: StreamParams,
)
    requires
        (a, b, c, d) == ('m', 'o', 'o', 'v') || (a, b, c, d) == ('t', 'r', 'a', 'k') || (a, b, c, d) == (
            'm',
            'd',
            'i',
            'a',
        ) || (a, b, c, d) == ('m', 'i', 'n', 'f') || (a, b, c, d) == ('s', 't', 'b', 'l'),
        8 + content.len() < 0x1_0000_0000,
        scan_init(content) == Scan::Found(p),
    ensures
        mp4_box(tag(a, b, c, d), content).len() == 8 + content.len(),
        scan_init(mp4_box(tag(a, b, c, d), content)) == Scan::Found(p),
        scan_init(mp4_box(tag(a, b, c, d), content) + rest) == Scan::Found(p),
{
    let s = mp4_box(tag(a, b, c, d), content);
    scan_enters(a, b, c, d, content, rest);
    scan_enters(a, b, c, d, content, Seq::empty());
    assert(s + Seq::<u8>::empty() =~= s);
}

proof fn grouped3(x: Seq<u8>, y: Seq<u8>, z: Seq<u8>)
    ensures
        x + y + z == x + (y + z),
        (x + y + z).len() == x.len() + y.len() + z.len(),
{
    assert(x + y + z =~= x + (y + z));
}

proof fn grouped5(v: Seq<u8>, w: Seq<u8>, x: Seq<u8>, y: Seq<u8>, z: Seq<u8>)
    ensures
        v + w + x + y + z == v + (w + x + y + z),
        (v + w + x + y + z).len() == v.len() + w.len() + x.len() + y.len() + z.len(),
{
    assert(v + w + x + y + z =~= v + (w + x + y + z));
}

proof fn box_len(a: char, b: char, c: char, d: char, content: Seq<u8>)
    ensures
        mp4_box(tag(a, b, c, d), content).len() == 8 + content.len(),
{
}

spec fn ftyp_content() -> Seq<u8> {
    tag('i', 's', 'o', 'm') + be32(0) + tag('i', 's', 'o', 'm') + tag('i', 's', 'o', '6') + tag(
        'c',
        'm',
        'f',
        'c',
    ) + tag('c', 'm', 'f', 'v') + tag('a', 'v', 'c', '1') + tag('m', 'p', '4', '1')
}

spec fn mvhd_content(t: Track) -> Seq<u8> {
    full(0, 0, 0, 0) + be32(0) + be32(0) + be32(t.timescale as int) + be32(0) + be32(0x0001_0000) + be16(
        0x0100,
    ) + zeros(2) + zeros(8) + matrix() + zeros(24) + be32(2)
}

spec fn tkhd_content(t: Track) -> Seq<u8> {
    full(0, 0, 0, 3) + be32(0) + be32(0) + be32(t.track_id as int) + be32(0) + be32(0) + zeros(8) + be16(0)
        + be16(0) + be16(0) + be16(0) + matrix() + be32(t.width * 0x1_0000) + be32(t.height * 0x1_0000)
}

spec fn mdhd_content(t: Track) -> Seq<u8> {
    full(0, 0, 0, 0) + be32(0) + be32(0) + be32(t.timescale as int) + be32(0) + be16(0x55c4) + be16(0)
}

spec fn hdlr_content() -> Seq<u8> {
    full(0, 0, 0, 0) + be32(0) + tag('v', 'i', 'd', 'e') + zeros(12) + handler_name()
}

spec fn vmhd_content() -> Seq<u8> {
    full(0, 0, 0, 1) + be16(0) + zeros(6)
}

proof fn ftyp_len()
    ensures
        ftyp_content().len() == 32,
{
}

proof fn matrix_len()
    ensures
        matrix().len() == 36,
{
}

proof fn mvhd_len(t: Track)
    ensures
        mvhd_content(t).len() == 100,
{
    matrix_len();
}

proof fn tkhd_len(t: Track)
    ensures
        tkhd_content(t).len() == 84,
{
    matrix_len();
}

proof fn mdhd_len(t: Track)
    ensures
        mdhd_content(t).len() == 24,
{
}

proof fn hdlr_len()
    ensures
        hdlr_content().len() == 37,
{
    assert(handler_name().len() == 13);
}

proof fn vmhd_len()
    ensures
        vmhd_content().len() == 12,
{
}

proof fn dinf_len()
    ensures
        dref_box().len() == 28,
{
}

proof fn empty_tables_len()
    ensures
        stts_box().len() == 16,
        stsc_box().len() == 16,
        stsz_box().len() == 20,
        stco_box().len() == 16,
{
}

proof fn mvex_len(t: Track)
    ensures
        mvex_box(t).len() == 40,
{
    assert(trex_box(t).len() == 32);
}

proof fn scan_stbl(t: Track)
    requires
        0 < t.sps.len() < 0x1_0000,
        0 < t.pps.len() < 0x1_0000,
    ensures
        stbl_box(t).len() == 197 + t.sps.len() + t.pps.len(),
        scan_init(stbl_box(t)) == Scan::Found(read_back(t)),
{
    let rest = stts_box() + stsc_box() + stsz_box() + stco_box();
    let content = stsd_box(t) + stts_box() + stsc_box() + stsz_box() + stco_box();
    empty_tables_len();
    scan_stsd(t, rest);
    grouped5(stsd_box(t), stts_box(), stsc_box(), stsz_box(), stco_box());
    scan_container('s', 't', 'b', 'l', content, Seq::empty(), read_back(t));
}

proof fn scan_minf(t: Track)
    requires
        0 < t.sps.len() < 0x1_0000,
        0 < t.pps.len() < 0x1_0000,
    ensures
        minf_box(t).len() == 261 + t.sps.len() + t.pps.len(),
        scan_init(minf_box(t)) == Scan::Found(read_back(t)),
{
    scan_stbl(t);
    vmhd_len();
    dinf_len();
    minf_from(stbl_box(t), read_back(t));
}

proof fn minf_from(stbl: Seq<u8>, p: StreamParams)
    requires
        stbl.len() < 0x100_0000,
        scan_init(stbl) == Scan::Found(p),
        vmhd_content().len() == 12,
        dref_box().len() == 28,
    ensures
        mp4_box(tag('m', 'i', 'n', 'f'), vmhd_box() + dinf_box() + stbl).len() == 64 + stbl.len(),
        scan_init(mp4_box(tag('m', 'i', 'n', 'f'), vmhd_box() + dinf_box() + stbl)) == Scan::Found(p),
{
    box_len('d', 'i', 'n', 'f', dref_box());
    box_len('v', 'm', 'h', 'd', vmhd_content());
    scan_passes_over('d', 'i', 'n', 'f', dref_box(), stbl);
    scan_passes_over('v', 'm', 'h', 'd', vmhd_content(), dinf_box() + stbl);
    grouped3(vmhd_box(), dinf_box(), stbl);
    scan_container('m', 'i', 'n', 'f', vmhd_box() + dinf_box() + stbl, Seq::empty(), p);
}

proof fn scan_mdia(t: Track)
    requires
        0 < t.sps.len() < 0x1_0000,
        0 < t.pps.len() < 0x1_0000,
    ensures
        mdia_box(t).len() == 346 + t.sps.len() + t.pps.len(),
        scan_init(mdia_box(t)) == Scan::Found(read_back(t)),
{
    scan_minf(t);
    mdhd_len(t);
    hdlr_len();
    mdia_from(t, minf_box(t), read_back(t));
}

proof fn mdia_from(t: Track, minf: Seq<u8>, p: StreamParams)
    requires
        minf.len() < 0x100_0000,
        scan_init(minf) == Scan::Found(p),
        mdhd_content(t).len() == 24,
        hdlr_content().len() == 37,
    ensures
        mp4_box(tag('m', 'd', 'i', 'a'), mdhd_box(t) + hdlr_box() + minf).len() == 85 + minf.len(),
        scan_init(mp4_box(tag('m', 'd', 'i', 'a'), mdhd_box(t) + hdlr_box() + minf)) == Scan::Found(p),
{
    box_len('h', 'd', 'l', 'r', hdlr_content());
    box_len('m', 'd', 'h', 'd', mdhd_content(t));
    scan_passes_over('h', 'd', 'l', 'r', hdlr_content(), minf);
    scan_passes_over('m', 'd', 'h', 'd', mdhd_content(t), hdlr_box() + minf);
    grouped3(mdhd_box(t), hdlr_box(), minf);
    scan_container('m', 'd', 'i', 'a', mdhd_box(t) + hdlr_box() + minf, Seq::empty(), p);
}

proof fn scan_trak(t: Track, rest: Seq<u8>)
    requires
        0 < t.sps.len() < 0x1_0000,
        0 < t.pps.len() < 0x1_0000,
    ensures
        trak_box(t).len() == 446 + t.sps.len() + t.pps.len(),
        scan_init(trak_box(t) + rest) == Scan::Found(read_back(t)),
{
    scan_mdia(t);
    tkhd_len(t);
    trak_from(t, mdia_box(t), rest, read_back(t));
}

proof fn trak_from(t: Track, mdia: Seq<u8>, rest: Seq<u8>, p: StreamParams)
    requires
        mdia.len() < 0x100_0000,
        scan_init(mdia) == Scan::Found(p),
        tkhd_content(t).len() == 84,
    ensures
        mp4_box(tag('t', 'r', 'a', 'k'), tkhd_box(t) + mdia).len() == 100 + mdia.len(),
        scan_init(mp4_box(tag('t', 'r', 'a', 'k'), tkhd_box(t) + mdia) + rest) == Scan::Found(p),
{
    box_len('t', 'k', 'h', 'd', tkhd_content(t));
    scan_passes_over('t', 'k', 'h', 'd', tkhd_content(t), mdia);
    scan_container('t', 'r', 'a', 'k', tkhd_box(t) + mdia, rest, p);
}

proof fn scan_moov(t: Track, rest: Seq<u8>)
    requires
        0 < t.sps.len() < 0x1_0000,
        0 < t.pps.len() < 0x1_0000,
    ensures
        moov_box(t).len() == 602 + t.sps.len() + t.pps.len(),
        scan_init(moov_box(t) + rest) == Scan::Found(read_back(t)),
{
    mvex_len(t);
    mvhd_len(t);
    scan_trak(t, mvex_box(t));
    moov_from(t, trak_box(t), mvex_box(t), rest, read_back(t));
}

proof fn moov_from(t: Track, trak: Seq<u8>, mvex: Seq<u8>, rest: Seq<u8>, p: StreamParams)
    requires
        trak.len() < 0x100_0000,
        mvex.len() == 40,
        scan_init(trak + mvex) == Scan::Found(p),
        mvhd_content(t).len() == 100,
    ensures
        mp4_box(tag('m', 'o', 'o', 'v'), mvhd_box(t) + trak + mvex).len() == 156 + trak.len(),
        scan_init(mp4_box(tag('m', 'o', 'o', 'v'), mvhd_box(t) + trak + mvex) + rest) == Scan::Found(
            p,
        ),
{
    box_len('m', 'v', 'h', 'd', mvhd_content(t));
    scan_passes_over('m', 'v', 'h', 'd', mvhd_content(t), trak + mvex);
    grouped3(mvhd_box(t), trak, mvex);
    scan_container('m', 'o', 'o', 'v', mvhd_box(t) + trak + mvex, rest, p);
}

/// Reading an initialization segment gives back the parameter sets it was made with, and the
/// low 16 bits of width and height, whatever follows the segment.
pub proof fn init_segment_reads_back(t: Track, rest: Seq<u8>)
    requires
        0 < t.sps.len() < 0x1_0000,
        0 < t.pps.len() < 0x1_0000,
    ensures
        scan_init(init_segment(t) + rest) == Scan::Found(read_back(t)),
        media_nals(init_segment(t) + rest) == media_nals(rest),
{
    scan_moov(t, rest);
    ftyp_len();
    ftyp_then(moov_box(t) + rest);
    moov_then(mvhd_box(t) + trak_box(t) + mvex_box(t), rest);
    grouped3(ftyp_box(), moov_box(t), rest);
}

proof fn ftyp_then(rest: Seq<u8>)
    requires
        ftyp_content().len() == 32,
    ensures
        scan_init(ftyp_box() + rest) == scan_init(rest),
        media_nals(ftyp_box() + rest) == media_nals(rest),
{
    scan_passes_over('f', 't', 'y', 'p', ftyp_content(), rest);
    media_passes_over('f', 't', 'y', 'p', ftyp_content(), rest);
}

proof fn moov_then(content: Seq<u8>, rest: Seq<u8>)
    requires
        mp4_box(tag('m', 'o', 'o', 'v'), content).len() < 0x1_0000_0000,
    ensures
        media_nals(mp4_box(tag('m', 'o', 'o', 'v'), content) + rest) == media_nals(rest),
{
    box_len('m', 'o', 'o', 'v', content);
    media_passes_over('m', 'o', 'o', 'v', content, rest);
}

/// The NAL units of the frames, one frame after another.
pub open spec fn joined(frames: Seq<Seq<Seq<u8>>>) -> Seq<Seq<u8>>
    decreases frames.len(),
{
    if frames.len() == 0 {
        Seq::empty()
    } else {
        joined(frames.drop_last()) + frames.last()
    }
}

/// Whether each sample holds the NAL units of one frame, each behind its length.
pub open spec fn samples_of(samples: Seq<Sample>, frames: Seq<Seq<Seq<u8>>>) -> bool {
    &&& samples.len() == frames.len()
    &&& forall|i: int|
        0 <= i < frames.len() ==> (#[trigger] samples[i]).data == length_prefixed(frames[i])
            && short_nals(frames[i])
}

proof fn prefixed_concat(x: Seq<Seq<u8>>, y: Seq<Seq<u8>>)
    ensures
        length_prefixed(x + y) == length_prefixed(x) + length_prefixed(y),
    decreases y.len(),
{
    if y.len() == 0 {
        assert(x + y =~= x);
        assert(length_prefixed(x) + length_prefixed(y) =~= length_prefixed(x));
    } else {
        prefixed_concat(x, y.drop_last());
        assert((x + y).drop_last() =~= x + y.drop_last());
        assert(length_prefixed(x + y) =~= length_prefixed(x) + length_prefixed(y));
    }
}

proof fn payload_of(samples: Seq<Sample>, frames: Seq<Seq<Seq<u8>>>)
    requires
        samples_of(samples, frames),
    ensures
        payload(samples) == length_prefixed(joined(frames)),
        short_nals(joined(frames)),
    decreases frames.len(),
{
    if frames.len() > 0 {
        let s = samples.drop_last();
        let f = frames.drop_last();
        assert forall|i: int| 0 <= i < f.len() implies (#[trigger] s[i]).data == length_prefixed(f[i])
            && short_nals(f[i]) by {
            assert(s[i] == samples[i] && f[i] == frames[i]);
        }
        payload_of(s, f);
        prefixed_concat(joined(f), frames.last());
        assert(samples.last() == samples[frames.len() - 1]);
        assert forall|i: int| 0 <= i < joined(frames).len() implies (#[trigger] joined(frames)[i]).len()
            < 0x1_0000_0000 by {
            if i < joined(f).len() {
                assert(joined(frames)[i] == joined(f)[i]);
            } else {
                assert(joined(frames)[i] == frames.last()[i - joined(f).len()]);
            }
        }
    }
}

proof fn media_passes_over(a: char, b: char, c: char, d: char, content: Seq<u8>, rest: Seq<u8>)
    requires
        (a, b, c, d) != ('m', 'd', 'a', 't'),
        (a as u32) < 128 && (b as u32) < 128 && (c as u32) < 128 && (d as u32) < 128,
        8 + content.len() < 0x1_0000_0000,
    ensures
        media_nals(mp4_box(tag(a, b, c, d), content) + rest) == media_nals(rest),
{
    first_box(a, b, c, d, content, rest);
}

proof fn media_mdat(content: Seq<u8>)
    requires
        8 + content.len() < 0x1_0000_0000,
    ensures
        media_nals(mp4_box(tag('m', 'd', 'a', 't'), content)) == Some(split_prefixed(content)),
{
    let s = mp4_box(tag('m', 'd', 'a', 't'), content);
    first_box('m', 'd', 'a', 't', content, Seq::empty());
    assert(s + Seq::<u8>::empty() =~= s);
}

spec fn styp_content() -> Seq<u8> {
    tag('c', 'm', 'f', 'v') + be32(0) + tag('m', 's', 'd', 'h') + tag('m', 's', 'i', 'x') + tag(
        'c',
        'm',
        'f',
        'c',
    ) + tag('c', 'm', 'f', 'v')
}

proof fn styp_then(rest: Seq<u8>)
    ensures
        media_nals(styp_box() + rest) == media_nals(rest),
{
    assert(styp_content().len() == 24);
    media_passes_over('s', 't', 'y', 'p', styp_content(), rest);
}

/// Reading a media segment gives back the NAL units of its frames, in order.
pub proof fn media_segment_reads_back(
    sequence_number: u32,
    track_id: u32,
    base_dts: i64,
    samples: Seq<Sample>,
    frames: Seq<Seq<Seq<u8>>>,
)
    requires
        samples_of(samples, frames),
        88 + 16 * samples.len() < 0x1_0000_0000,
        8 + payload(samples).len() < 0x1_0000_0000,
    ensures
        media_nals(media_segment(sequence_number, track_id, base_dts, samples)) == Some(joined(frames)),
{
    let moof_content = mfhd_box(sequence_number) + traf_box(track_id, base_dts, samples);
    moof_len(sequence_number, track_id, base_dts, samples);
    payload_of(samples, frames);
    prefixed_nals_split_back(joined(frames));
    media_mdat(payload(samples));
    moof_then(moof_content, mdat_box(samples));
    styp_then(moof_box(sequence_number, track_id, base_dts, samples) + mdat_box(samples));
    grouped3(
        styp_box(),
        moof_box(sequence_number, track_id, base_dts, samples),
        mdat_box(samples),
    );
}

proof fn moof_then(content: Seq<u8>, rest: Seq<u8>)
    requires
        mp4_box(tag('m', 'o', 'o', 'f'), content).len() < 0x1_0000_0000,
    ensures
        media_nals(mp4_box(tag('m', 'o', 'o', 'f'), content) + rest) == media_nals(rest),
{
    box_len('m', 'o', 'o', 'f', content);
    media_passes_over('m', 'o', 'o', 'f', content, rest);
}

} // verus!
