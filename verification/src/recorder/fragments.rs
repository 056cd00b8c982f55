//! The pieces of a recording: where an init segment ends, and the samples of a CAN track.

use crate::cmaf::demux::{is_kind, kind_is};
use crate::cmaf::layout::{box_size_is_its_length, mp4_box, tag};
use crate::endian::{be32_at, get_be32, le64, low32, put_bytes};
use vstd::prelude::*;
use vstd::slice::{slice_subrange, slice_to_vec};

verus! {

/// A frame without the 8-byte timestamp in front of it. A frame of no more than 8 bytes has none.
pub open spec fn unstamped(s: Seq<u8>) -> Seq<u8> {
    if s.len() > 8 {
        s.skip(8)
    } else {
        s
    }
}

/// What is left of a frame behind a timestamp is the frame.
pub proof fn stamp_is_stripped(ms: u64, frame: Seq<u8>)
    requires
        frame.len() > 0,
    ensures
        unstamped(le64(ms as int) + frame) == frame,
{
    assert((le64(ms as int) + frame).skip(8) =~= frame);
}

/// Of every frame something is left, and a frame that is too short to have a timestamp and anything
/// behind it is left as it is.
pub proof fn no_frame_is_stripped_bare(s: Seq<u8>)
    ensures
        s.len() > 0 ==> unstamped(s).len() > 0,
        unstamped(s).len() < s.len() ==> s.len() - unstamped(s).len() == le64(0).len(),
        s.len() <= le64(0).len() ==> unstamped(s) == s,
{
}

/// Strip the 8-byte LE timestamp prefix that realsense-server prepends to each MoQ frame.
pub fn strip_timestamp(data: &[u8]) -> (r: &[u8])
    ensures
        r@ == unstamped(data@),
{
    if data.len() > 8 {
        let r = slice_subrange(data, 8, data.len());
        assert(r@ =~= data@.skip(8));
        r
    } else {
        data
    }
}

/// Where the boxes from `at` on stop being those of an init segment, and whether a moov box
/// stands before that place.
pub open spec fn init_end(s: Seq<u8>, at: int) -> (int, bool)
    decreases
            (if at < s.len() {
                s.len() - at
            } else {
                0
            }),
{
    if at < 0 || at + 8 > s.len() || be32_at(s, at) < 8 {
        (at, false)
    } else if kind_is(s.skip(at), 'm', 'o', 'o', 'v') {
        (at + be32_at(s, at), true)
    } else {
        init_end(s, at + be32_at(s, at))
    }
}

/// Whether a frame begins with a file type box.
pub open spec fn begins_with_ftyp(s: Seq<u8>) -> bool {
    s.len() > 8 && kind_is(s, 'f', 't', 'y', 'p')
}

/// The init segment that a frame begins with, and what follows it.
pub open spec fn init_split(s: Seq<u8>) -> Option<(Seq<u8>, Seq<u8>)> {
    let (end, found) = init_end(s, 0);
    if begins_with_ftyp(s) && found {
        Some((s.take(end), s.skip(end)))
    } else {
        None
    }
}

/// Whether the moov box of the init segment that a frame begins with is all there.
pub open spec fn init_whole(s: Seq<u8>) -> bool {
    begins_with_ftyp(s) && init_end(s, 0).1 ==> init_end(s, 0).0 <= s.len()
}

/// The media in a frame: what follows its init segment, or all of it where it has none.
pub open spec fn media_in(s: Seq<u8>) -> Option<Seq<u8>> {
    if begins_with_ftyp(s) {
        let start = init_end(s, 0).0;
        if start < s.len() {
            Some(s.skip(start))
        } else {
            None
        }
    } else if s.len() > 8 {
        Some(s)
    } else {
        None
    }
}

/// Where the init segment that a frame begins with ends, and whether it has a moov box. `None`
/// stands for a place beyond the end of the frame.
fn init_bounds(raw: &[u8]) -> (r: (Option<usize>, bool))
    ensures
        r.1 == init_end(raw@, 0).1,
        match r.0 {
            Some(end) => init_end(raw@, 0).0 == end && end <= raw@.len(),
            None => init_end(raw@, 0).0 > raw@.len(),
        },
{
    let mut at: usize = 0;
    while raw.len() - at >= 8
        invariant
            raw.len() == raw@.len(),
            at <= raw@.len(),
            init_end(raw@, 0) == init_end(raw@, at as int),
        decreases raw@.len() - at,
    {
        let size: u32 = get_be32(raw, at);
        if size < 8 {
            return (Some(at), false);
        }
        let moov = is_kind(raw, at, 'm', 'o', 'o', 'v');
        if size as u64 > (raw.len() - at) as u64 {
            assert(!moov ==> init_end(raw@, at + size) == (at + size, false));
            return (None, moov);
        }
        if moov {
            return (Some(at + size as usize), true);
        }
        at = at + size as usize;
    }
    (Some(at), false)
}

/// Skip past init boxes (ftyp+moov) in a combined init+media frame, returning the media portion.
pub fn skip_init_boxes(raw: &[u8]) -> (r: Option<&[u8]>)
    ensures
        match r {
            Some(media) => init_end(raw@, 0).0 < raw@.len() && media@ == raw@.skip(
                init_end(raw@, 0).0,
            ),
            None => init_end(raw@, 0).0 >= raw@.len(),
        },
{
    match init_bounds(raw).0 {
        Some(start) => if start < raw.len() {
            let media = slice_subrange(raw, start, raw.len());
            assert(media@ =~= raw@.skip(start as int));
            Some(media)
        } else {
            None
        },
        None => None,
    }
}

fn has_ftyp(raw: &[u8]) -> (r: bool)
    ensures
        r == begins_with_ftyp(raw@),
{
    assert(raw@.skip(0) =~= raw@);
    raw.len() > 8 && is_kind(raw, 0, 'f', 't', 'y', 'p')
}

/// The media of a frame that has no timestamp.
pub fn media_part(raw: &[u8]) -> (r: Option<&[u8]>)
    ensures
        match r {
            Some(media) => media_in(raw@) == Some(media@),
            None => media_in(raw@) is None,
        },
{
    if has_ftyp(raw) {
        skip_init_boxes(raw)
    } else if raw.len() > 8 {
        Some(raw)
    } else {
        None
    }
}

/// Whether the init segment that a frame begins with can be split off.
pub fn init_complete(raw: &[u8]) -> (r: bool)
    ensures
        r == init_whole(raw@),
{
    if !has_ftyp(raw) {
        return true;
    }
    let (end, found) = init_bounds(raw);
    !found || end.is_some()
}

/// The init segment that a frame without a timestamp begins with, and the media that follows it,
/// where there is any. Other frames are to be passed over.
pub fn split_init(raw: &[u8]) -> (r: Option<(Vec<u8>, Option<Vec<u8>>)>)
    requires
        init_whole(raw@),
    ensures
        match r {
            Some((init, media)) => init_split(raw@) matches Some((a, b)) && init@ == a && match media {
                Some(m) => m@ == b && b.len() > 0,
                None => b.len() == 0,
            },
            None => init_split(raw@) is None,
        },
{
    if !has_ftyp(raw) {
        return None;
    }
    let (end, found) = init_bounds(raw);
    match end {
        Some(end) if found => {
            let init = slice_to_vec(slice_subrange(raw, 0, end));
            assert(init@ =~= raw@.take(end as int));
            let rest = slice_subrange(raw, end, raw.len());
            assert(rest@ =~= raw@.skip(end as int));
            let media = if end < raw.len() {
                Some(slice_to_vec(rest))
            } else {
                None
            };
            Some((init, media))
        },
        _ => None,
    }
}

/// A frame made of a file type box, a moov box and media is split between the last two.
pub proof fn frame_splits_after_moov(ftyp: Seq<u8>, moov: Seq<u8>, media: Seq<u8>)
    requires
        8 + ftyp.len() < 0x1_0000_0000,
        8 + moov.len() < 0x1_0000_0000,
    ensures
        ({
            let init = mp4_box(tag('f', 't', 'y', 'p'), ftyp) + mp4_box(
                tag('m', 'o', 'o', 'v'),
                moov,
            );
            &&& init_whole(init + media)
            &&& init_split(init + media) == Some((init, media))
            &&& media.len() > 0 ==> media_in(init + media) == Some(media)
        }),
{
    box_size_is_its_length(tag('f', 't', 'y', 'p'), ftyp);
    box_size_is_its_length(tag('m', 'o', 'o', 'v'), moov);
    boxes_split(
        mp4_box(tag('f', 't', 'y', 'p'), ftyp),
        mp4_box(tag('m', 'o', 'o', 'v'), moov),
        media,
    );
}

proof fn same_size(s: Seq<u8>, i: int, t: Seq<u8>)
    requires
        0 <= i,
        i + 8 <= s.len(),
        t.len() >= 8,
        s.subrange(i, i + 8) == t.take(8),
    ensures
        be32_at(s, i) == be32_at(t, 0),
{
    let u = t.take(8);
    assert(forall|k: int| 0 <= k < 8 ==> u[k] == #[trigger] t[k]);
    assert(forall|k: int| 0 <= k < 8 ==> s[i + k] == #[trigger] u[k]);
    assert(s[i] == u[0] && s[i + 1] == u[1] && s[i + 2] == u[2] && s[i + 3] == u[3]);
}

proof fn boxes_split(a: Seq<u8>, b: Seq<u8>, media: Seq<u8>)
    requires
        a.len() >= 8,
        b.len() >= 8,
        be32_at(a, 0) == a.len(),
        be32_at(b, 0) == b.len(),
        a.subrange(4, 8) == tag('f', 't', 'y', 'p'),
        b.subrange(4, 8) == tag('m', 'o', 'o', 'v'),
    ensures
        init_whole(a + b + media),
        init_split(a + b + media) == Some((a + b, media)),
        media.len() > 0 ==> media_in(a + b + media) == Some(media),
{
    let s = a + b + media;
    let n = a.len() as int;
    let m = b.len() as int;
    assert(be32_at(s, 0) == n) by {
        assert(s.subrange(0, 8) =~= a.take(8));
        same_size(s, 0, a);
    }
    assert(be32_at(s, n) == m) by {
        assert(s.subrange(n, n + 8) =~= b.take(8));
        same_size(s, n, b);
    }
    assert(kind_is(s, 'f', 't', 'y', 'p')) by {
        assert(forall|k: int| 0 <= k < 4 ==> #[trigger] a.subrange(4, 8)[k] == s[4 + k]);
        assert(s[4] == tag('f', 't', 'y', 'p')[0]);
        assert(s[5] == tag('f', 't', 'y', 'p')[1]);
        assert(s[6] == tag('f', 't', 'y', 'p')[2]);
        assert(s[7] == tag('f', 't', 'y', 'p')[3]);
    }
    assert(kind_is(s.skip(n), 'm', 'o', 'o', 'v')) by {
        let t = s.skip(n);
        assert(forall|k: int| 0 <= k < 4 ==> #[trigger] b.subrange(4, 8)[k] == t[4 + k]);
        assert(t[4] == tag('m', 'o', 'o', 'v')[0]);
        assert(t[5] == tag('m', 'o', 'o', 'v')[1]);
        assert(t[6] == tag('m', 'o', 'o', 'v')[2]);
        assert(t[7] == tag('m', 'o', 'o', 'v')[3]);
    }
    split_at(s, n, m);
    assert(s.take(n + m) =~= a + b);
    assert(s.skip(n + m) =~= media);
}

proof fn split_at(s: Seq<u8>, n: int, m: int)
    requires
        8 <= n,
        8 <= m,
        n + m <= s.len(),
        be32_at(s, 0) == n,
        be32_at(s, n) == m,
        kind_is(s, 'f', 't', 'y', 'p'),
        kind_is(s.skip(n), 'm', 'o', 'o', 'v'),
    ensures
        begins_with_ftyp(s),
        init_end(s, 0) == (n + m, true),
{
    assert(s.skip(0) =~= s);
    assert(init_end(s, n) == (n + m, true));
}

/// A batch of CAN frames and when it came.
#[derive(Debug)]
pub struct TimestampedCanBatch {
    pub timestamp_ms: u64,
    pub data: Vec<u8>,
}

/// A batch of CAN frames and when it came.
pub struct Batch {
    pub timestamp_ms: u64,
    pub data: Seq<u8>,
}

impl View for TimestampedCanBatch {
    type V = Batch;

    open spec fn view(&self) -> Batch {
        Batch { timestamp_ms: self.timestamp_ms, data: self.data@ }
    }
}

/// The batches that a buffer holds.
pub open spec fn batches(v: Seq<TimestampedCanBatch>) -> Seq<Batch> {
    v.map_values(|b: TimestampedCanBatch| b@)
}

/// A sample of a track fragment.
#[derive(Debug, Clone, Copy, PartialEq, Eq, Structural)]
pub struct SampleEntry {
    pub duration: u32,
    pub size: u32,
    pub flags: u32,
    pub composition_offset: i32,
}

/// Samples of one track, and their data.
#[derive(Debug)]
pub struct TrackFragment {
    pub track_id: u32,
    pub base_decode_time: u64,
    pub samples: Vec<SampleEntry>,
    pub data: Vec<u8>,
}

/// What a [`TrackFragment`] holds.
#[verifier::ext_equal]
pub struct Piece {
    pub track_id: u32,
    pub base_decode_time: u64,
    pub samples: Seq<SampleEntry>,
    pub data: Seq<u8>,
}

impl View for TrackFragment {
    type V = Piece;

    open spec fn view(&self) -> Piece {
        Piece {
            track_id: self.track_id,
            base_decode_time: self.base_decode_time,
            samples: self.samples@,
            data: self.data@,
        }
    }
}

/// Milliseconds from the start of the recording to `ms`, none if it is earlier.
pub open spec fn since(start_ms: u64, ms: u64) -> int {
    if ms >= start_ms {
        ms - start_ms
    } else {
        0
    }
}

/// How long the sample of a batch lasts: the time since the batch before it, in 32 bits, and one
/// millisecond where none has passed.
pub open spec fn batch_duration(list: Seq<Batch>, start_ms: u64, i: int) -> int {
    let before = since(
        start_ms,
        list[if i == 0 {
            0
        } else {
            i - 1
        }].timestamp_ms,
    );
    let now = since(start_ms, list[i].timestamp_ms);
    if now > before {
        (now - before) % 0x1_0000_0000
    } else {
        1
    }
}

/// The sample of a batch.
pub open spec fn batch_sample(list: Seq<Batch>, start_ms: u64, i: int) -> SampleEntry {
    SampleEntry {
        duration: batch_duration(list, start_ms, i) as u32,
        size: (list[i].data.len() as int % 0x1_0000_0000) as u32,
        flags: 0x0200_0000,
        composition_offset: 0,
    }
}

/// The data of all batches, one after another.
pub open spec fn batch_data(list: Seq<Batch>) -> Seq<u8>
    decreases list.len(),
{
    if list.len() == 0 {
        Seq::empty()
    } else {
        batch_data(list.drop_last()) + list.last().data
    }
}

/// The fragment that holds batches.
pub open spec fn can_piece(list: Seq<Batch>, track_id: u32, start_ms: u64) -> Piece {
    Piece {
        track_id,
        base_decode_time: since(start_ms, list[0].timestamp_ms) as u64,
        samples: Seq::new(list.len(), |i: int| batch_sample(list, start_ms, i)),
        data: batch_data(list),
    }
}

/// How long the first `n` samples last together.
pub open spec fn lasted(samples: Seq<SampleEntry>, n: int) -> int
    decreases n,
{
    if n <= 0 {
        0
    } else {
        lasted(samples, n - 1) + samples[n - 1].duration
    }
}

/// The fragment begins when its first batch came, and the samples keep the time between batches:
/// each one ends a millisecond after its batch came.
pub proof fn samples_keep_the_time_between_batches(
    list: Seq<Batch>,
    track_id: u32,
    start_ms: u64,
    i: int,
)
    requires
        0 <= i < list.len(),
        start_ms <= list[0].timestamp_ms,
        forall|k: int|
            0 < k < list.len() ==> list[k - 1].timestamp_ms < (#[trigger] list[k]).timestamp_ms
                && list[k].timestamp_ms - list[k - 1].timestamp_ms < 0x1_0000_0000,
    ensures
        ({
            let p = can_piece(list, track_id, start_ms);
            &&& start_ms + p.base_decode_time == list[0].timestamp_ms
            &&& start_ms + p.base_decode_time + lasted(p.samples, i + 1) == list[i].timestamp_ms + 1
            &&& start_ms <= list[i].timestamp_ms
        }),
    decreases i,
{
    let p = can_piece(list, track_id, start_ms);
    if i > 0 {
        samples_keep_the_time_between_batches(list, track_id, start_ms, i - 1);
        assert(list[i - 1].timestamp_ms < list[i].timestamp_ms);
    } else {
        assert(lasted(p.samples, 0) == 0);
    }
}

/// The data of the batches stand one after another, each as long as its sample says. Every sample
/// can be read on its own, and is shown when it is decoded.
pub proof fn samples_hold_the_batches(list: Seq<Batch>, track_id: u32, start_ms: u64, i: int)
    requires
        0 <= i < list.len(),
        list[i].data.len() < 0x1_0000_0000,
    ensures
        ({
            let p = can_piece(list, track_id, start_ms);
            let at = batch_data(list.take(i)).len() as int;
            let n = p.samples[i].size as int;
            &&& p.samples.len() == list.len()
            &&& n == list[i].data.len()
            &&& p.samples[i].flags / 0x0100_0000 % 4 == 2
            &&& p.samples[i].flags / 0x1_0000 % 2 == 0
            &&& p.samples[i].composition_offset == 0
            &&& at + n <= p.data.len()
            &&& p.data.subrange(at, at + n) == list[i].data
            &&& p.track_id == track_id
        }),
{
    data_before(list, i + 1);
    let at = batch_data(list.take(i)).len() as int;
    let n = list[i].data.len() as int;
    let upto = batch_data(list.take(i + 1));
    assert(list.take(i + 1).drop_last() =~= list.take(i));
    assert(batch_data(list).subrange(at, at + n) =~= batch_data(list).take(at + n).subrange(at, at + n));
    assert(upto.subrange(at, at + n) =~= list[i].data);
}

proof fn data_before(list: Seq<Batch>, n: int)
    requires
        0 <= n <= list.len(),
    ensures
        batch_data(list.take(n)).len() <= batch_data(list).len(),
        batch_data(list).take(batch_data(list.take(n)).len() as int) == batch_data(list.take(n)),
    decreases list.len() - n,
{
    if n == list.len() {
        assert(list.take(n) =~= list);
        assert(batch_data(list).take(batch_data(list).len() as int) =~= batch_data(list));
    } else {
        data_before(list, n + 1);
        assert(list.take(n + 1).drop_last() =~= list.take(n));
        let (a, b) = (batch_data(list.take(n)), batch_data(list.take(n + 1)));
        assert(batch_data(list).take(a.len() as int) =~= batch_data(list).take(b.len() as int).take(
            a.len() as int,
        ));
        assert(b.take(a.len() as int) =~= a);
    }
}

/// The fragment that holds the batches that have come in; `track_id` 0 stands for no CAN track.
pub fn can_fragment(list: &[TimestampedCanBatch], track_id: u32, start_ms: u64) -> (r: Option<
    TrackFragment,
>)
    ensures
        match r {
            Some(f) => list@.len() > 0 && track_id != 0 && f@ == can_piece(
                batches(list@),
                track_id,
                start_ms,
            ),
            None => list@.len() == 0 || track_id == 0,
        },
{
    if list.len() == 0 || track_id == 0 {
        return None;
    }
    let ghost all = batches(list@);
    let base: u64 = list[0].timestamp_ms.saturating_sub(start_ms);
    let mut prev: u64 = base;
    let mut samples: Vec<SampleEntry> = Vec::new();
    let mut data: Vec<u8> = Vec::new();
    let mut i: usize = 0;
    assert(data@ =~= batch_data(all.take(0)));
    while i < list.len()
        invariant
            i <= list@.len(),
            list@.len() > 0,
            all == batches(list@),
            prev == since(
                start_ms,
                all[if i == 0 {
                    0
                } else {
                    i - 1
                }].timestamp_ms,
            ),
            samples@ == Seq::new(i as nat, |j: int| batch_sample(all, start_ms, j)),
            data@ == batch_data(all.take(i as int)),
        decreases list@.len() - i,
    {
        let batch = &list[i];
        assert(all[i as int] == batch@);
        let ts: u64 = batch.timestamp_ms.saturating_sub(start_ms);
        let duration: u32 = if ts > prev {
            low32(ts - prev)
        } else {
            1
        };
        prev = ts;
        let sample = SampleEntry {
            duration,
            size: low32(batch.data.len() as u64),
            flags: 0x0200_0000,
            composition_offset: 0,
        };
        assert(sample == batch_sample(all, start_ms, i as int));
        samples.push(sample);
        put_bytes(&mut data, &batch.data);
        assert(all.take(i + 1).drop_last() =~= all.take(i as int));
        assert(all.take(i + 1).last() == batch@);
        i = i + 1;
        assert(samples@ =~= Seq::new(i as nat, |j: int| batch_sample(all, start_ms, j)));
    }
    assert(all.take(i as int) =~= all);
    Some(TrackFragment { track_id, base_decode_time: base, samples, data })
}

/// The tracks of a camera that are being read.
#[derive(Debug, Clone, Copy, PartialEq, Eq, Structural)]
pub struct SourceTracks {
    pub video: bool,
    pub depth: bool,
}

/// The track numbers of a camera; 0 for a track that it does not have.
#[derive(Debug, Clone, Copy, PartialEq, Eq, Structural)]
pub struct TrackIds {
    pub video: u32,
    pub depth: u32,
}

/// How many tracks the cameras have.
pub open spec fn track_count(sources: Seq<SourceTracks>) -> int
    decreases sources.len(),
{
    if sources.len() == 0 {
        0
    } else {
        track_count(sources.drop_last()) + (if sources.last().video {
            1int
        } else {
            0int
        }) + (if sources.last().depth {
            1int
        } else {
            0int
        })
    }
}

/// The track numbers of camera `i`. Tracks are numbered from 1, camera by camera, the video of a
/// camera before its depth.
pub open spec fn track_ids(sources: Seq<SourceTracks>, i: int) -> TrackIds {
    let first = 1 + track_count(sources.take(i));
    TrackIds {
        video: if sources[i].video {
            first as u32
        } else {
            0
        },
        depth: if !sources[i].depth {
            0
        } else if sources[i].video {
            (first + 1) as u32
        } else {
            first as u32
        },
    }
}

/// The tracks of a recording.
#[derive(Debug)]
pub struct TrackPlan {
    pub ids: Vec<TrackIds>,
    /// The CAN track, 0 if there is none.
    pub can: u32,
}

proof fn track_count_bounds(sources: Seq<SourceTracks>)
    ensures
        0 <= track_count(sources) <= 2 * sources.len(),
    decreases sources.len(),
{
    if sources.len() > 0 {
        track_count_bounds(sources.drop_last());
    }
}

/// Numbers the tracks; the CAN track, if it is wanted, comes last. `None` where there is nothing
/// to record.
pub fn assign_tracks(sources: &[SourceTracks], can: bool) -> (r: Option<TrackPlan>)
    requires
        sources@.len() < 0x7FFF_FFFF,
    ensures
        match r {
            Some(plan) => {
                &&& track_count(sources@) > 0 || can
                &&& plan.ids@ == Seq::new(sources@.len(), |i: int| track_ids(sources@, i))
                &&& plan.can == (if can {
                    1 + track_count(sources@)
                } else {
                    0
                })
            },
            None => track_count(sources@) == 0 && !can,
        },
{
    let mut next: u32 = 1;
    let mut ids: Vec<TrackIds> = Vec::new();
    let mut i: usize = 0;
    while i < sources.len()
        invariant
            i <= sources@.len() < 0x7FFF_FFFF,
            next == 1 + track_count(sources@.take(i as int)),
            ids@ == Seq::new(i as nat, |j: int| track_ids(sources@, j)),
        decreases sources@.len() - i,
    {
        proof {
            track_count_bounds(sources@.take(i as int));
            assert(sources@.take(i + 1).drop_last() =~= sources@.take(i as int));
        }
        let source = sources[i];
        let mut video: u32 = 0;
        let mut depth: u32 = 0;
        if source.video {
            video = next;
            next = next + 1;
        }
        if source.depth {
            depth = next;
            next = next + 1;
        }
        ids.push(TrackIds { video, depth });
        i = i + 1;
        assert(ids@ =~= Seq::new(i as nat, |j: int| track_ids(sources@, j)));
    }
    assert(sources@.take(i as int) =~= sources@);
    if next == 1 && !can {
        return None;
    }
    proof {
        track_count_bounds(sources@);
    }
    let can = if can {
        next
    } else {
        0
    };
    Some(TrackPlan { ids, can })
}

/// No two tracks have the same number, and the CAN track has one beyond those of all cameras.
pub proof fn track_numbers_differ(sources: Seq<SourceTracks>, i: int, j: int)
    requires
        0 <= i < j < sources.len() < 0x7FFF_FFFF,
    ensures
        ({
            let a = track_ids(sources, i);
            let b = track_ids(sources, j);
            let can = 1 + track_count(sources);
            &&& sources[i].video ==> 0 < a.video < can
            &&& sources[i].depth ==> 0 < a.depth < can
            &&& sources[i].video && sources[i].depth ==> a.video < a.depth
            &&& sources[i].video && sources[j].video ==> a.video < b.video
            &&& sources[i].video && sources[j].depth ==> a.video < b.depth
            &&& sources[i].depth && sources[j].video ==> a.depth < b.video
            &&& sources[i].depth && sources[j].depth ==> a.depth < b.depth
        }),
{
    track_count_bounds(sources.take(i));
    track_count_bounds(sources);
    track_counts_grow(sources, i + 1, j);
    track_counts_grow(sources, j + 1, sources.len() as int);
    track_counts_grow(sources, j, j + 1);
    track_count_bounds(sources.take(j));
    assert(sources.take(i + 1).drop_last() =~= sources.take(i));
    assert(sources.take(sources.len() as int) =~= sources);
}

/// The tracks have the numbers from 1 to their count: each is that of the video or the depth of some
/// camera.
pub proof fn track_numbers_leave_no_gap(sources: Seq<SourceTracks>, n: int) -> (i: int)
    requires
        1 <= n <= track_count(sources),
        sources.len() < 0x7FFF_FFFF,
    ensures
        0 <= i < sources.len(),
        track_ids(sources, i).video == n || track_ids(sources, i).depth == n,
    decreases sources.len(),
{
    let before = sources.drop_last();
    let last = sources.len() - 1;
    track_count_bounds(sources);
    assert(sources.take(last) =~= before);
    if n <= track_count(before) {
        let i = track_numbers_leave_no_gap(before, n);
        assert(before.take(i) =~= sources.take(i));
        assert(before[i] == sources[i]);
        i
    } else {
        last
    }
}

proof fn track_counts_grow(sources: Seq<SourceTracks>, i: int, j: int)
    requires
        0 <= i <= j <= sources.len(),
    ensures
        track_count(sources.take(i)) <= track_count(sources.take(j)),
    decreases j - i,
{
    if i < j {
        track_counts_grow(sources, i, j - 1);
        assert(sources.take(j).drop_last() =~= sources.take(j - 1));
    }
}

/// Whether no track of a camera is being read.
pub open spec fn none_read(sources: Seq<SourceTracks>) -> bool {
    forall|i: int|
        0 <= i < sources.len() ==> !(#[trigger] sources[i]).video && !sources[i].depth
}

/// Whether nothing is left to record: no track of a camera is being read and no CAN bus.
pub fn all_ended(sources: &[SourceTracks], can_readers: usize) -> (r: bool)
    ensures
        r == (can_readers == 0 && none_read(sources@)),
{
    if can_readers != 0 {
        return false;
    }
    let mut i: usize = 0;
    while i < sources.len()
        invariant
            i <= sources@.len(),
            forall|j: int| 0 <= j < i ==> !(#[trigger] sources@[j]).video && !sources@[j].depth,
        decreases sources@.len() - i,
    {
        if sources[i].video || sources[i].depth {
            return false;
        }
        i = i + 1;
    }
    true
}

} // verus!
