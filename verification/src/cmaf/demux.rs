//! Reading CMAF segments back.
//!
//! An initialization segment is searched for its AVC decoder configuration; a media segment
//! gives the NAL units of its first mdat box.

use crate::annex_b::views;
use crate::endian::{be16, be16_at, be16_round_trip, be32, be32_at, be32_read, get_be16, get_be32};
use vstd::prelude::*;
use vstd::slice::{slice_subrange, slice_to_vec};

verus! {

/// Why a segment could not be read.
#[derive(Debug, Clone, Copy, PartialEq, Eq, Structural)]
pub enum CmafError {
    /// avcC box not found in CMAF init segment
    AvccNotFound,
}

/// What an initialization segment says of the stream.
#[verifier::ext_equal]
pub struct StreamParams {
    pub sps: Seq<u8>,
    pub pps: Seq<u8>,
    pub width: u32,
    pub height: u32,
}

/// Outcome of a search for the decoder configuration.
#[verifier::ext_equal]
pub enum Scan {
    /// A box on the way is shorter than its own header.
    Malformed,
    /// There is none, or it is of no use.
    Missing,
    Found(StreamParams),
}

/// Whether the box that `s` begins with has the given type.
pub open spec fn kind_is(s: Seq<u8>, a: char, b: char, c: char, d: char) -> bool {
    s[4] == a as u8 && s[5] == b as u8 && s[6] == c as u8 && s[7] == d as u8
}

/// The last of `n` parameter sets that begin at `pos`, each behind its 16-bit length, and the
/// position after them; `last` where `n` is 0, nothing where they do not fit.
pub open spec fn param_sets(s: Seq<u8>, pos: int, n: nat, last: Seq<u8>) -> Option<(Seq<u8>, int)>
    decreases n,
{
    if n == 0 {
        Some((last, pos))
    } else if pos + 2 > s.len() {
        None
    } else {
        let end = pos + 2 + be16_at(s, pos);
        if end > s.len() {
            None
        } else {
            param_sets(s, end, (n - 1) as nat, s.subrange(pos + 2, end))
        }
    }
}

/// The parameter sets of an AVC decoder configuration. It says nothing of width and height.
pub open spec fn avcc_params(s: Seq<u8>) -> Option<StreamParams> {
    if s.len() < 7 {
        None
    } else {
        match param_sets(s, 6, (s[5] % 32) as nat, Seq::empty()) {
            None => None,
            Some((sps, pos)) => if pos >= s.len() {
                None
            } else {
                match param_sets(s, pos + 1, s[pos] as nat, Seq::empty()) {
                    None => None,
                    Some((pps, end)) => if sps.len() == 0 || pps.len() == 0 {
                        None
                    } else {
                        Some(StreamParams { sps, pps, width: 0, height: 0 })
                    },
                }
            },
        }
    }
}

/// The first decoder configuration among the boxes of `s` and the boxes inside them.
pub open spec fn scan_init(s: Seq<u8>) -> Scan
    decreases s.len(),
{
    if s.len() < 8 {
        Scan::Missing
    } else {
        let size = be32_at(s, 0);
        if size <= 0 || size > s.len() {
            Scan::Missing
        } else if kind_is(s, 'm', 'o', 'o', 'v') || kind_is(s, 't', 'r', 'a', 'k') || kind_is(
            s,
            'm',
            'd',
            'i',
            'a',
        ) || kind_is(s, 'm', 'i', 'n', 'f') || kind_is(s, 's', 't', 'b', 'l') {
            if size < 8 {
                Scan::Malformed
            } else {
                match scan_init(s.subrange(8, size)) {
                    Scan::Missing => scan_init(s.skip(size)),
                    found => found,
                }
            }
        } else if kind_is(s, 's', 't', 's', 'd') {
            if s.len() < 16 {
                scan_init(s.skip(size))
            } else if size < 16 {
                Scan::Malformed
            } else {
                match scan_init(s.subrange(16, size)) {
                    Scan::Missing => scan_init(s.skip(size)),
                    found => found,
                }
            }
        } else if kind_is(s, 'a', 'v', 'c', '1') {
            if size <= 86 {
                scan_init(s.skip(size))
            } else {
                match scan_init(s.subrange(86, size)) {
                    Scan::Missing => scan_init(s.skip(size)),
                    Scan::Malformed => Scan::Malformed,
                    Scan::Found(p) => Scan::Found(
                        StreamParams {
                            width: if p.width > 0 {
                                p.width
                            } else {
                                be16_at(s, 32) as u32
                            },
                            height: if p.height > 0 {
                                p.height
                            } else {
                                be16_at(s, 34) as u32
                            },
                            ..p
                        },
                    ),
                }
            }
        } else if kind_is(s, 'a', 'v', 'c', 'C') {
            if size < 8 {
                Scan::Malformed
            } else {
                match avcc_params(s.subrange(8, size)) {
                    Some(p) => Scan::Found(p),
                    None => Scan::Missing,
                }
            }
        } else {
            scan_init(s.skip(size))
        }
    }
}

/// The length-prefixed NAL units of `s`, up to the first one that does not fit.
pub open spec fn split_prefixed(s: Seq<u8>) -> Seq<Seq<u8>>
    decreases s.len(),
{
    if s.len() < 4 {
        Seq::empty()
    } else {
        let n = be32_at(s, 0);
        if n < 0 || 4 + n > s.len() {
            Seq::empty()
        } else {
            seq![s.subrange(4, 4 + n)] + split_prefixed(s.skip(4 + n))
        }
    }
}

/// The NAL units of the first mdat box; `None` where that box is shorter than its header.
pub open spec fn media_nals(s: Seq<u8>) -> Option<Seq<Seq<u8>>>
    decreases s.len(),
{
    if s.len() < 8 {
        Some(Seq::empty())
    } else {
        let size = be32_at(s, 0);
        if size <= 0 || size > s.len() {
            Some(Seq::empty())
        } else if kind_is(s, 'm', 'd', 'a', 't') {
            if size < 8 {
                None
            } else {
                Some(split_prefixed(s.subrange(8, size)))
            }
        } else {
            media_nals(s.skip(size))
        }
    }
}

/// What a parsed configuration holds.
pub open spec fn params_of(p: (Vec<u8>, Vec<u8>, u32, u32)) -> StreamParams {
    StreamParams { sps: p.0@, pps: p.1@, width: p.2, height: p.3 }
}

/// Whether the box at `pos` has the given type.
pub fn is_kind(data: &[u8], pos: usize, a: char, b: char, c: char, d: char) -> (r: bool)
    requires
        pos + 8 <= data@.len(),
    ensures
        r == kind_is(data@.skip(pos as int), a, b, c, d),
{
    assert(data@.len() == data.len());
    data[pos + 4] == a as u8 && data[pos + 5] == b as u8 && data[pos + 6] == c as u8 && data[pos + 7]
        == d as u8
}

fn is_container(data: &[u8], pos: usize) -> (r: bool)
    requires
        pos + 8 <= data@.len(),
    ensures
        r == ({
            let s = data@.skip(pos as int);
            kind_is(s, 'm', 'o', 'o', 'v') || kind_is(s, 't', 'r', 'a', 'k') || kind_is(
                s,
                'm',
                'd',
                'i',
                'a',
            ) || kind_is(s, 'm', 'i', 'n', 'f') || kind_is(s, 's', 't', 'b', 'l')
        }),
{
    is_kind(data, pos, 'm', 'o', 'o', 'v') || is_kind(data, pos, 't', 'r', 'a', 'k') || is_kind(
        data,
        pos,
        'm',
        'd',
        'i',
        'a',
    ) || is_kind(data, pos, 'm', 'i', 'n', 'f') || is_kind(data, pos, 's', 't', 'b', 'l')
}

/// Parse a CMAF init segment to extract SPS, PPS, width, and height from the avcC box.
pub fn parse_cmaf_init_segment(data: &[u8]) -> (r: Result<(Vec<u8>, Vec<u8>, u32, u32), CmafError>)
    requires
        scan_init(data@) !is Malformed,
    ensures
        match r {
            Ok(p) => scan_init(data@) == Scan::Found(params_of(p)),
            Err(e) => e == CmafError::AvccNotFound && scan_init(data@) is Missing,
        },
{
    match parse_cmaf_init_boxes(data) {
        Some(p) => Ok(p),
        None => Err(CmafError::AvccNotFound),
    }
}

/// Recursively search MP4 boxes for the avcC box.
pub fn parse_cmaf_init_boxes(data: &[u8]) -> (r: Option<(Vec<u8>, Vec<u8>, u32, u32)>)
    requires
        scan_init(data@) !is Malformed,
    ensures
        match r {
            Some(p) => scan_init(data@) == Scan::Found(params_of(p)),
            None => scan_init(data@) is Missing,
        },
{
    match search_boxes(data) {
        Ok(found) => found,
        Err(()) => None,
    }
}

/// Whether an initialization segment can be searched.
pub fn init_segment_readable(data: &[u8]) -> (r: bool)
    ensures
        r == (scan_init(data@) !is Malformed),
{
    search_boxes(data).is_ok()
}

fn search_boxes(data: &[u8]) -> (r: Result<Option<(Vec<u8>, Vec<u8>, u32, u32)>, ()>)
    ensures
        match r {
            Ok(Some(p)) => scan_init(data@) == Scan::Found(params_of(p)),
            Ok(None) => scan_init(data@) is Missing,
            Err(e) => scan_init(data@) is Malformed,
        },
    decreases data@.len(),
{
    let mut pos: usize = 0;
    assert(data@.skip(0) =~= data@);
    while data.len() - pos >= 8
        invariant
            pos <= data@.len(),
            data@.len() == data.len(),
            scan_init(data@) == scan_init(data@.skip(pos as int)),
        decreases data@.len() - pos,
    {
        let ghost s = data@.skip(pos as int);
        let box_size: usize = get_be32(data, pos) as usize;
        assert(be32_at(s, 0) == box_size);
        if box_size == 0 || box_size > data.len() - pos {
            return Ok(None);
        }
        let end: usize = pos + box_size;
        assert(s.skip(box_size as int) =~= data@.skip(end as int));
        if is_container(data, pos) {
            if box_size < 8 {
                return Err(());
            }
            let inner = slice_subrange(data, pos + 8, end);
            assert(inner@ =~= s.subrange(8, box_size as int));
            match search_boxes(inner) {
                Ok(None) => {},
                found => return found,
            }
        } else if is_kind(data, pos, 's', 't', 's', 'd') {
            if data.len() - pos >= 16 {
                if box_size < 16 {
                    return Err(());
                }
                let inner = slice_subrange(data, pos + 16, end);
                assert(inner@ =~= s.subrange(16, box_size as int));
                match search_boxes(inner) {
                    Ok(None) => {},
                    found => return found,
                }
            }
        } else if is_kind(data, pos, 'a', 'v', 'c', '1') {
            if box_size > 86 {
                let avc1_width: u32 = get_be16(data, pos + 32) as u32;
                let avc1_height: u32 = get_be16(data, pos + 34) as u32;
                assert(be16_at(s, 32) == avc1_width && be16_at(s, 34) == avc1_height);
                let inner = slice_subrange(data, pos + 86, end);
                assert(inner@ =~= s.subrange(86, box_size as int));
                match search_boxes(inner) {
                    Ok(None) => {},
                    Ok(Some((sps, pps, w, h))) => {
                        let width: u32 = if w > 0 {
                            w
                        } else {
                            avc1_width
                        };
                        let height: u32 = if h > 0 {
                            h
                        } else {
                            avc1_height
                        };
                        return Ok(Some((sps, pps, width, height)));
                    },
                    Err(e) => return Err(e),
                }
            }
        } else if is_kind(data, pos, 'a', 'v', 'c', 'C') {
            if box_size < 8 {
                return Err(());
            }
            let inner = slice_subrange(data, pos + 8, end);
            assert(inner@ =~= s.subrange(8, box_size as int));
            return Ok(parse_avcc_box(inner));
        }
        pos = end;
    }
    Ok(None)
}

/// Reads `count` parameter sets that begin at `start`, and keeps the last one.
fn read_param_sets(data: &[u8], start: usize, count: usize) -> (r: Option<(Vec<u8>, usize)>)
    requires
        start <= data@.len(),
    ensures
        match r {
            Some((last, end)) => end <= data@.len() && param_sets(
                data@,
                start as int,
                count as nat,
                Seq::empty(),
            ) == Some((last@, end as int)),
            None => param_sets(data@, start as int, count as nat, Seq::empty()) is None,
        },
{
    let mut pos: usize = start;
    let mut last: Vec<u8> = Vec::new();
    let mut k: usize = 0;
    while k < count
        invariant
            k <= count,
            pos <= data@.len(),
            data@.len() == data.len(),
            param_sets(data@, start as int, count as nat, Seq::empty()) == param_sets(
                data@,
                pos as int,
                (count - k) as nat,
                last@,
            ),
        decreases count - k,
    {
        if data.len() - pos < 2 {
            return None;
        }
        let len: usize = get_be16(data, pos) as usize;
        if data.len() - pos - 2 < len {
            return None;
        }
        let end: usize = pos + 2 + len;
        last = slice_to_vec(slice_subrange(data, pos + 2, end));
        pos = end;
        k = k + 1;
    }
    Some((last, pos))
}

/// Parse an avcC box to extract SPS, PPS, and dimensions.
///
/// The dimensions are left at 0: the sample entry around the box states them.
pub fn parse_avcc_box(data: &[u8]) -> (r: Option<(Vec<u8>, Vec<u8>, u32, u32)>)
    ensures
        match r {
            Some(p) => avcc_params(data@) == Some(params_of(p)),
            None => avcc_params(data@) is None,
        },
{
    if data.len() < 7 {
        return None;
    }
    let num_sps: usize = (data[5] % 32) as usize;
    let (sps, pos) = match read_param_sets(data, 6, num_sps) {
        Some(found) => found,
        None => return None,
    };
    if pos >= data.len() {
        return None;
    }
    let num_pps: usize = data[pos] as usize;
    let (pps, _) = match read_param_sets(data, pos + 1, num_pps) {
        Some(found) => found,
        None => return None,
    };
    if sps.is_empty() || pps.is_empty() {
        return None;
    }
    Some((sps, pps, 0, 0))
}

fn read_prefixed(data: &[u8]) -> (nals: Vec<Vec<u8>>)
    ensures
        views(nals@) == split_prefixed(data@),
{
    let mut nals: Vec<Vec<u8>> = Vec::new();
    let mut pos: usize = 0;
    assert(data@.skip(0) =~= data@);
    assert(views(nals@) + split_prefixed(data@) =~= split_prefixed(data@));
    while data.len() - pos >= 4
        invariant
            pos <= data@.len(),
            data@.len() == data.len(),
            views(nals@) + split_prefixed(data@.skip(pos as int)) == split_prefixed(data@),
        ensures
            views(nals@) == split_prefixed(data@),
        decreases data@.len() - pos,
    {
        let ghost s = data@.skip(pos as int);
        let ghost before = views(nals@);
        let nal_len: usize = get_be32(data, pos) as usize;
        assert(be32_at(s, 0) == nal_len);
        if nal_len > data.len() - pos - 4 {
            assert(views(nals@) =~= split_prefixed(data@));
            break;
        }
        let end: usize = pos + 4 + nal_len;
        let nal = slice_to_vec(slice_subrange(data, pos + 4, end));
        assert(nal@ =~= s.subrange(4, 4 + nal_len));
        assert(s.skip(4 + nal_len) =~= data@.skip(end as int));
        nals.push(nal);
        assert(views(nals@) =~= before.push(nal@));
        assert(views(nals@) + split_prefixed(data@.skip(end as int)) =~= before + split_prefixed(s));
        pos = end;
        assert(data.len() - pos < 4 ==> views(nals@) =~= split_prefixed(data@));
    }
    nals
}

/// Parse a CMAF media segment to extract NAL unit data from the mdat box.
/// Returns raw NAL unit byte vectors (without length prefixes).
pub fn parse_cmaf_media_segment(data: &[u8]) -> (r: Result<Vec<Vec<u8>>, CmafError>)
    requires
        media_nals(data@) is Some,
    ensures
        r is Ok,
        media_nals(data@) == Some(views(r->Ok_0@)),
{
    match find_mdat(data) {
        Some((start, end)) => Ok(read_prefixed(slice_subrange(data, start, end))),
        None => {
            let nals: Vec<Vec<u8>> = Vec::new();
            assert(views(nals@) =~= Seq::<Seq<u8>>::empty());
            Ok(nals)
        },
    }
}

/// Whether a media segment can be read.
pub fn media_segment_readable(data: &[u8]) -> (r: bool)
    ensures
        r == (media_nals(data@) is Some),
{
    match find_mdat(data) {
        Some((start, end)) => start <= end,
        None => true,
    }
}

/// Where the payload of the first mdat box starts and where the box ends.
fn find_mdat(data: &[u8]) -> (r: Option<(usize, usize)>)
    ensures
        match r {
            Some((start, end)) => {
                &&& end <= data@.len()
                &&& if start <= end {
                    media_nals(data@) == Some(split_prefixed(data@.subrange(start as int, end as int)))
                } else {
                    media_nals(data@) is None
                }
            },
            None => media_nals(data@) == Some(Seq::<Seq<u8>>::empty()),
        },
{
    let mut pos: usize = 0;
    assert(data@.skip(0) =~= data@);
    while data.len() - pos >= 8
        invariant
            pos <= data@.len(),
            data@.len() == data.len(),
            media_nals(data@) == media_nals(data@.skip(pos as int)),
        decreases data@.len() - pos,
    {
        let ghost s = data@.skip(pos as int);
        let box_size: usize = get_be32(data, pos) as usize;
        assert(be32_at(s, 0) == box_size);
        if box_size == 0 || box_size > data.len() - pos {
            return None;
        }
        let end: usize = pos + box_size;
        assert(s.skip(box_size as int) =~= data@.skip(end as int));
        if is_kind(data, pos, 'm', 'd', 'a', 't') {
            assert(box_size >= 8 ==> data@.subrange(pos + 8, end as int) =~= s.subrange(
                8,
                box_size as int,
            ));
            return Some((pos + 8, end));
        }
        pos = end;
    }
    None
}

/// Parameter sets one after another, each behind its length.
pub open spec fn sets_of(list: Seq<Seq<u8>>) -> Seq<u8>
    decreases list.len(),
{
    if list.len() == 0 {
        Seq::empty()
    } else {
        be16(list[0].len() as int) + list[0] + sets_of(list.skip(1))
    }
}

/// Of parameter sets that stand one after another the last one is read, and the reading ends behind
/// it.
pub proof fn last_parameter_set_counts(head: Seq<u8>, list: Seq<Seq<u8>>, rest: Seq<u8>, before: Seq<u8>)
    requires
        forall|i: int| 0 <= i < list.len() ==> (#[trigger] list[i]).len() < 0x1_0000,
    ensures
        param_sets(head + sets_of(list) + rest, head.len() as int, list.len(), before) == Some(
            (
                if list.len() > 0 {
                    list.last()
                } else {
                    before
                },
                (head + sets_of(list)).len() as int,
            ),
        ),
    decreases list.len(),
{
    if list.len() > 0 {
        let first = be16(list[0].len() as int) + list[0];
        let tail = list.skip(1);
        let s = head + sets_of(list) + rest;
        let pos = head.len() as int;
        assert(sets_of(list) == first + sets_of(tail));
        assert(s =~= (head + first) + sets_of(tail) + rest);
        be16_round_trip(list[0].len() as int);
        assert(s[pos] == be16(list[0].len() as int)[0] && s[pos + 1] == be16(list[0].len() as int)[1]);
        assert(be16_at(s, pos) == list[0].len());
        assert(s.subrange(pos + 2, pos + 2 + list[0].len()) =~= list[0]);
        assert forall|i: int| 0 <= i < tail.len() implies (#[trigger] tail[i]).len() < 0x1_0000 by {
            assert(tail[i] == list[i + 1]);
        }
        last_parameter_set_counts(head + first, tail, rest, list[0]);
        if tail.len() > 0 {
            assert(tail.last() == list.last());
        }
        assert(head + sets_of(list) =~= head + first + sets_of(tail));
    }
}

/// NAL units that stand one after another, each behind its length, are read as they are, in order, up
/// to the first one that is cut short.
pub proof fn prefixed_units_are_read_in_order(nal: Seq<u8>, rest: Seq<u8>)
    requires
        nal.len() < 0x1_0000_0000,
    ensures
        split_prefixed(be32(nal.len() as int) + nal + rest) == seq![nal] + split_prefixed(rest),
        forall|n: int|
            0 <= n < nal.len() ==> split_prefixed(be32(nal.len() as int) + #[trigger] nal.take(n))
                == Seq::<Seq<u8>>::empty(),
{
    let s = be32(nal.len() as int) + nal + rest;
    assert(s.subrange(0, 4) =~= be32(nal.len() as int));
    be32_read(s, 0, nal.len() as int);
    assert(s.subrange(4, 4 + nal.len() as int) =~= nal);
    assert(s.skip(4 + nal.len() as int) =~= rest);
    assert forall|n: int| 0 <= n < nal.len() implies split_prefixed(
        be32(nal.len() as int) + #[trigger] nal.take(n),
    ) == Seq::<Seq<u8>>::empty() by {
        let cut = be32(nal.len() as int) + nal.take(n);
        assert(cut.subrange(0, 4) =~= be32(nal.len() as int));
        be32_read(cut, 0, nal.len() as int);
    }
}

} // verus!
