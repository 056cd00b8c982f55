//! A recording session: how it begins, and what is written when something comes in.

use crate::recorder::fragments::{
    all_ended, batch_data, batches, can_fragment, can_piece, init_split, init_whole, none_read,
    split_init, strip_timestamp, unstamped, Batch, Piece, SampleEntry, SourceTracks, TimestampedCanBatch,
    TrackFragment, TrackIds,
};
use vstd::prelude::*;

verus! {

/// What waiting for the init segment of a track leads to.
#[derive(Debug)]
pub enum InitStep {
    /// It is there, and maybe media behind it.
    Got { init: Vec<u8>, media: Option<Vec<u8>> },
    /// Read the next frame.
    Wait,
    /// Give up: the track has ended.
    Ended,
}

/// Decides on a frame that came while the init segment of a track is awaited; `None` stands for
/// the end of the track.
pub fn init_step(frame: Option<&[u8]>) -> (r: InitStep)
    requires
        frame matches Some(data) ==> init_whole(unstamped(data@)),
    ensures
        match frame {
            Some(data) => match init_split(unstamped(data@)) {
                Some((a, b)) => r matches InitStep::Got { init, media } && init@ == a && match media {
                    Some(m) => m@ == b && b.len() > 0,
                    None => b.len() == 0,
                },
                None => r is Wait,
            },
            None => r is Ended,
        },
{
    match frame {
        Some(data) => match split_init(strip_timestamp(data)) {
            Some((init, media)) => InitStep::Got { init, media },
            None => InitStep::Wait,
        },
        None => InitStep::Ended,
    }
}

/// What the init segment of a camera's track says.
#[derive(Debug)]
pub struct InitInfo {
    pub timescale: u32,
    pub codec_config: Vec<u8>,
    pub width: u32,
    pub height: u32,
}

/// How a track of the recording is declared.
#[derive(Debug)]
pub struct TrackConfig {
    pub track_id: u32,
    pub timescale: u32,
    pub handler: [u8; 4],
    pub codec_config: Vec<u8>,
    pub width: u32,
    pub height: u32,
    pub high_bitdepth: bool,
}

/// A track of a camera.
#[derive(Debug, Clone, Copy, PartialEq, Eq, Structural)]
pub enum Channel {
    Video,
    Depth,
}

/// Declares a track of a camera. Depth has more than 8 bits.
pub fn camera_track(track_id: u32, channel: Channel, info: InitInfo) -> (r: TrackConfig)
    ensures
        r.track_id == track_id,
        r.timescale == info.timescale,
        r.handler@ == seq!['v' as u8, 'i' as u8, 'd' as u8, 'e' as u8],
        r.codec_config == info.codec_config,
        r.width == info.width,
        r.height == info.height,
        r.high_bitdepth == (channel == Channel::Depth),
{
    let handler = ['v' as u8, 'i' as u8, 'd' as u8, 'e' as u8];
    assert(handler@ =~= seq!['v' as u8, 'i' as u8, 'd' as u8, 'e' as u8]);
    TrackConfig {
        track_id,
        timescale: info.timescale,
        handler,
        codec_config: info.codec_config,
        width: info.width,
        height: info.height,
        high_bitdepth: channel == Channel::Depth,
    }
}

/// Declares the CAN track: metadata, in milliseconds.
pub fn can_track(track_id: u32) -> (r: TrackConfig)
    ensures
        r.track_id == track_id,
        r.timescale == 1000,
        r.handler@ == seq!['m' as u8, 'e' as u8, 't' as u8, 'a' as u8],
        r.codec_config@ == Seq::<u8>::empty(),
        r.width == 0,
        r.height == 0,
        !r.high_bitdepth,
{
    let handler = ['m' as u8, 'e' as u8, 't' as u8, 'a' as u8];
    assert(handler@ =~= seq!['m' as u8, 'e' as u8, 't' as u8, 'a' as u8]);
    TrackConfig {
        track_id,
        timescale: 1000,
        handler,
        codec_config: Vec::new(),
        width: 0,
        height: 0,
        high_bitdepth: false,
    }
}

/// A media segment that was taken apart.
#[derive(Debug)]
pub struct MediaSegment {
    pub base_decode_time: u64,
    pub samples: Vec<SampleEntry>,
    pub data: Vec<u8>,
}

/// What comes in while recording.
#[derive(Debug)]
pub enum RecordEvent {
    /// CAN frames.
    Can(TimestampedCanBatch),
    /// A media segment of a camera's track; `None` where it could not be taken apart.
    Media { source: usize, channel: Channel, segment: Option<MediaSegment> },
    /// A camera's track has ended or failed.
    Ended { source: usize, channel: Channel },
    /// The recording is stopped.
    Stopped,
}

/// A recording in progress.
#[derive(Debug)]
pub struct Recording {
    reading: Vec<SourceTracks>,
    ids: Vec<TrackIds>,
    can: u32,
    start_ms: u64,
    pending: Vec<TimestampedCanBatch>,
}

/// State of a [`Recording`]: the tracks that are being read, all track numbers, the CAN track (0
/// if there is none), when it began, and the CAN frames that wait to be written.
pub struct Session {
    pub reading: Seq<SourceTracks>,
    pub ids: Seq<TrackIds>,
    pub can: u32,
    pub start_ms: u64,
    pub pending: Seq<Batch>,
}

impl View for Recording {
    type V = Session;

    closed spec fn view(&self) -> Session {
        Session {
            reading: self.reading@,
            ids: self.ids@,
            can: self.can,
            start_ms: self.start_ms,
            pending: batches(self.pending@),
        }
    }
}

/// The fragments in a list.
pub open spec fn pieces(v: Seq<TrackFragment>) -> Seq<Piece> {
    v.map_values(|f: TrackFragment| f@)
}

/// The number of a camera's track.
pub open spec fn number_of(ids: TrackIds, channel: Channel) -> u32 {
    match channel {
        Channel::Video => ids.video,
        Channel::Depth => ids.depth,
    }
}

/// The tracks that are being read once one is not.
pub open spec fn without(tracks: SourceTracks, channel: Channel) -> SourceTracks {
    match channel {
        Channel::Video => SourceTracks { video: false, ..tracks },
        Channel::Depth => SourceTracks { depth: false, ..tracks },
    }
}

impl Session {
    /// The CAN frames that wait, as a fragment.
    pub open spec fn waiting(self) -> Seq<Piece> {
        if self.pending.len() == 0 || self.can == 0 {
            Seq::empty()
        } else {
            seq![can_piece(self.pending, self.can, self.start_ms)]
        }
    }

    /// The state once the CAN frames that wait have been written.
    pub open spec fn flushed(self) -> Session {
        if self.can == 0 {
            self
        } else {
            Session { pending: Seq::empty(), ..self }
        }
    }

    /// Whether an event is about a camera that is recorded.
    pub open spec fn concerns(self, event: RecordEvent) -> bool {
        match event {
            RecordEvent::Media { source, .. } => source < self.ids.len(),
            RecordEvent::Ended { source, .. } => source < self.reading.len(),
            _ => true,
        }
    }

    /// The state after an event, and what is written: media with the CAN frames that have come
    /// in before it, and at the end the CAN frames that are left.
    pub open spec fn next(self, event: RecordEvent) -> (Session, Seq<Piece>) {
        match event {
            RecordEvent::Can(batch) => (
                Session { pending: self.pending.push(batch@), ..self },
                Seq::empty(),
            ),
            RecordEvent::Media { source, channel, segment } => match segment {
                Some(m) => {
                    let media = Piece {
                        track_id: number_of(self.ids[source as int], channel),
                        base_decode_time: m.base_decode_time,
                        samples: m.samples@,
                        data: m.data@,
                    };
                    (self.flushed(), seq![media] + self.waiting())
                },
                None => (self, Seq::empty()),
            },
            RecordEvent::Ended { source, channel } => (
                Session {
                    reading: self.reading.update(
                        source as int,
                        without(self.reading[source as int], channel),
                    ),
                    ..self
                },
                Seq::empty(),
            ),
            RecordEvent::Stopped => (self.flushed(), self.waiting()),
        }
    }
}

impl Recording {
    /// A recording that begins: `reading` says which tracks the cameras have and `ids` their
    /// numbers.
    pub fn new(reading: Vec<SourceTracks>, ids: Vec<TrackIds>, can: u32, start_ms: u64) -> (r: Self)
        ensures
            r@ == (Session {
                reading: reading@,
                ids: ids@,
                can,
                start_ms,
                pending: Seq::empty(),
            }),
    {
        let r = Recording { reading, ids, can, start_ms, pending: Vec::new() };
        assert(batches(r.pending@) =~= Seq::<Batch>::empty());
        r
    }

    fn flush(&mut self, out: &mut Vec<TrackFragment>)
        ensures
            final(self)@ == old(self)@.flushed(),
            pieces(final(out)@) == pieces(old(out)@) + old(self)@.waiting(),
    {
        assert(batches(self.pending@).len() == self.pending@.len());
        match can_fragment(&self.pending, self.can, self.start_ms) {
            Some(fragment) => {
                out.push(fragment);
                self.pending = Vec::new();
                assert(batches(self.pending@) =~= Seq::<Batch>::empty());
                assert(pieces(out@) =~= pieces(old(out)@) + seq![fragment@]);
            },
            None => {
                assert(self.pending@.len() == 0 ==> batches(self.pending@) =~= Seq::<Batch>::empty());
                assert(pieces(out@) =~= pieces(old(out)@) + Seq::<Piece>::empty());
            },
        }
    }

    /// Takes in an event and returns what is to be written as one fragment, if anything.
    pub fn step(&mut self, event: RecordEvent) -> (r: Vec<TrackFragment>)
        requires
            old(self)@.concerns(event),
        ensures
            (final(self)@, pieces(r@)) == old(self)@.next(event),
    {
        let mut out: Vec<TrackFragment> = Vec::new();
        assert(pieces(out@) =~= Seq::<Piece>::empty());
        match event {
            RecordEvent::Can(batch) => {
                let ghost before = self.pending@;
                self.pending.push(batch);
                assert(batches(self.pending@) =~= batches(before).push(batch@));
            },
            RecordEvent::Media { source, channel, segment } => {
                if let Some(m) = segment {
                    let ids = self.ids[source];
                    let track_id: u32 = match channel {
                        Channel::Video => ids.video,
                        Channel::Depth => ids.depth,
                    };
                    let media = TrackFragment {
                        track_id,
                        base_decode_time: m.base_decode_time,
                        samples: m.samples,
                        data: m.data,
                    };
                    out.push(media);
                    assert(pieces(out@) =~= seq![media@]);
                    self.flush(&mut out);
                }
            },
            RecordEvent::Ended { source, channel } => {
                let tracks = self.reading[source];
                let left = match channel {
                    Channel::Video => SourceTracks { video: false, depth: tracks.depth },
                    Channel::Depth => SourceTracks { video: tracks.video, depth: false },
                };
                self.reading.set(source, left);
            },
            RecordEvent::Stopped => {
                self.flush(&mut out);
                assert(Seq::<Piece>::empty() + old(self)@.waiting() =~= old(self)@.waiting());
            },
        }
        out
    }

    /// Whether nothing is left to record; `can_readers` counts the CAN broadcasts.
    pub fn is_over(&self, can_readers: usize) -> (r: bool)
        ensures
            r == (can_readers == 0 && none_read(self@.reading)),
    {
        all_ended(&self.reading, can_readers)
    }
}

/// The state after events.
pub open spec fn after(s: Session, events: Seq<RecordEvent>) -> Session
    decreases events.len(),
{
    if events.len() == 0 {
        s
    } else {
        after(s, events.drop_last()).next(events.last()).0
    }
}

/// What is written for events, one after another.
pub open spec fn written(s: Session, events: Seq<RecordEvent>) -> Seq<Piece>
    decreases events.len(),
{
    if events.len() == 0 {
        Seq::empty()
    } else {
        written(s, events.drop_last()) + after(s, events.drop_last()).next(events.last()).1
    }
}

/// The data of the fragments of a track, one after another.
pub open spec fn track_data(list: Seq<Piece>, track_id: u32) -> Seq<u8>
    decreases list.len(),
{
    if list.len() == 0 {
        Seq::empty()
    } else if list.last().track_id == track_id {
        track_data(list.drop_last(), track_id) + list.last().data
    } else {
        track_data(list.drop_last(), track_id)
    }
}

/// The CAN frames that events bring, one after another.
pub open spec fn received(events: Seq<RecordEvent>) -> Seq<u8>
    decreases events.len(),
{
    if events.len() == 0 {
        Seq::empty()
    } else {
        match events.last() {
            RecordEvent::Can(batch) => received(events.drop_last()) + batch@.data,
            _ => received(events.drop_last()),
        }
    }
}

/// Whether no track of a camera has the number of the CAN track.
pub open spec fn can_apart(s: Session) -> bool {
    forall|i: int|
        0 <= i < s.ids.len() ==> (#[trigger] s.ids[i]).video != s.can && s.ids[i].depth != s.can
}

proof fn track_data_of_sum(a: Seq<Piece>, b: Seq<Piece>, track_id: u32)
    ensures
        track_data(a + b, track_id) == track_data(a, track_id) + track_data(b, track_id),
    decreases b.len(),
{
    if b.len() == 0 {
        assert(a + b =~= a);
        assert(track_data(a, track_id) + Seq::<u8>::empty() =~= track_data(a, track_id));
    } else {
        track_data_of_sum(a, b.drop_last(), track_id);
        assert((a + b).drop_last() =~= a + b.drop_last());
        let x = track_data(a, track_id);
        let y = track_data(b.drop_last(), track_id);
        assert(x + y + b.last().data =~= x + (y + b.last().data));
    }
}

proof fn track_data_of_one(p: Piece, track_id: u32)
    ensures
        track_data(seq![p], track_id) == (if p.track_id == track_id {
            p.data
        } else {
            Seq::empty()
        }),
{
    assert(seq![p].drop_last() =~= Seq::<Piece>::empty());
    assert(track_data(Seq::<Piece>::empty(), track_id) =~= Seq::<u8>::empty());
    assert(Seq::<u8>::empty() + p.data =~= p.data);
}

proof fn step_keeps_can_data(s: Session, event: RecordEvent)
    requires
        s.can != 0,
        can_apart(s),
        s.concerns(event),
    ensures
        s.next(event).0.can == s.can,
        s.next(event).0.ids == s.ids,
        track_data(s.next(event).1, s.can) + batch_data(s.next(event).0.pending) == (match event {
            RecordEvent::Can(batch) => batch_data(s.pending) + batch@.data,
            _ => batch_data(s.pending),
        }),
{
    let none = Seq::<Piece>::empty();
    assert(track_data(none, s.can) =~= Seq::<u8>::empty());
    assert(batch_data(Seq::<Batch>::empty()) =~= Seq::<u8>::empty());
    assert(track_data(s.waiting(), s.can) == batch_data(s.pending)) by {
        if s.pending.len() == 0 {
            assert(s.pending =~= Seq::<Batch>::empty());
        } else {
            track_data_of_one(can_piece(s.pending, s.can, s.start_ms), s.can);
        }
    }
    let out = s.next(event).1;
    match event {
        RecordEvent::Can(batch) => {
            assert(s.pending.push(batch@).drop_last() =~= s.pending);
            assert(Seq::<u8>::empty() + (batch_data(s.pending) + batch@.data) =~= batch_data(s.pending)
                + batch@.data);
        },
        RecordEvent::Media { source, channel, segment } => {
            if let Some(m) = segment {
                let media = Piece {
                    track_id: number_of(s.ids[source as int], channel),
                    base_decode_time: m.base_decode_time,
                    samples: m.samples@,
                    data: m.data@,
                };
                assert(media.track_id != s.can);
                track_data_of_one(media, s.can);
                track_data_of_sum(seq![media], s.waiting(), s.can);
                assert(Seq::<u8>::empty() + batch_data(s.pending) + Seq::<u8>::empty() =~= batch_data(
                    s.pending,
                ));
            } else {
                assert(Seq::<u8>::empty() + batch_data(s.pending) =~= batch_data(s.pending));
            }
        },
        RecordEvent::Ended { source, channel } => {
            assert(Seq::<u8>::empty() + batch_data(s.pending) =~= batch_data(s.pending));
        },
        RecordEvent::Stopped => {
            assert(batch_data(s.pending) + Seq::<u8>::empty() =~= batch_data(s.pending));
        },
    }
}

/// Every CAN frame that comes in is written to the CAN track once, in the order in which they
/// came, or still waits.
pub proof fn no_can_data_is_lost(s: Session, events: Seq<RecordEvent>)
    requires
        s.can != 0,
        can_apart(s),
        forall|i: int|
            0 <= i < events.len() ==> after(s, #[trigger] events.take(i)).concerns(events[i]),
    ensures
        track_data(written(s, events), s.can) + batch_data(after(s, events).pending) == batch_data(
            s.pending,
        ) + received(events),
        after(s, events).can == s.can,
        after(s, events).ids == s.ids,
    decreases events.len(),
{
    if events.len() == 0 {
        assert(track_data(Seq::<Piece>::empty(), s.can) =~= Seq::<u8>::empty());
        assert(Seq::<u8>::empty() + batch_data(s.pending) =~= batch_data(s.pending)
            + Seq::<u8>::empty());
    } else {
        let before = events.drop_last();
        let n = before.len() as int;
        assert forall|i: int| 0 <= i < before.len() implies after(
            s,
            #[trigger] before.take(i),
        ).concerns(before[i]) by {
            assert(before.take(i) =~= events.take(i));
        }
        no_can_data_is_lost(s, before);
        assert(events.take(n) =~= before);
        let t = after(s, before);
        step_keeps_can_data(t, events.last());
        track_data_of_sum(written(s, before), t.next(events.last()).1, s.can);
        let w = track_data(written(s, before), s.can);
        let x = track_data(t.next(events.last()).1, s.can);
        let rest = batch_data(after(s, events).pending);
        assert(w + x + rest =~= w + (x + rest));
        match events.last() {
            RecordEvent::Can(batch) => {
                assert(w + (batch_data(t.pending) + batch@.data) =~= w + batch_data(t.pending)
                    + batch@.data);
                assert(batch_data(s.pending) + received(before) + batch@.data =~= batch_data(s.pending)
                    + (received(before) + batch@.data));
            },
            _ => {},
        }
    }
}

/// What a recording has written so far.
#[derive(Debug, Clone, Copy, PartialEq, Eq, Structural)]
pub struct Progress {
    pub fragments: u32,
    pub bytes: u64,
}

impl Progress {
    /// The header of the file was written.
    pub fn new(header_bytes: usize) -> (r: Self)
        ensures
            r == (Progress { fragments: 0, bytes: header_bytes as u64 }),
    {
        Progress { fragments: 0, bytes: header_bytes as u64 }
    }

    /// A fragment was written.
    pub fn wrote(&mut self, bytes: usize)
        requires
            old(self).fragments < u32::MAX,
            old(self).bytes + bytes <= u64::MAX,
        ensures
            final(self).fragments == old(self).fragments + 1,
            final(self).bytes == old(self).bytes + bytes,
    {
        self.fragments = self.fragments + 1;
        self.bytes = self.bytes + bytes as u64;
    }

    /// Whether to report: after every tenth fragment.
    pub fn reports(&self) -> (r: bool)
        ensures
            r == (self.fragments > 0 && self.fragments % 10 == 0),
    {
        self.fragments > 0 && self.fragments % 10 == 0
    }
}

/// The media that events bring for a camera's track, one segment after another.
pub open spec fn media_received(events: Seq<RecordEvent>, camera: int, track: Channel) -> Seq<u8>
    decreases events.len(),
{
    if events.len() == 0 {
        Seq::empty()
    } else {
        let before = media_received(events.drop_last(), camera, track);
        match events.last() {
            RecordEvent::Media { source, channel, segment: Some(m) } => if source == camera && channel
                == track {
                before + m.data@
            } else {
                before
            },
            _ => before,
        }
    }
}

/// Whether each track of each camera has a number of its own.
pub open spec fn numbers_differ(ids: Seq<TrackIds>) -> bool {
    forall|i: int, c: Channel, j: int, d: Channel|
        0 <= i < ids.len() && 0 <= j < ids.len() && (i != j || c != d) ==> #[trigger] number_of(ids[i], c)
            != #[trigger] number_of(ids[j], d)
}

proof fn step_keeps_media(s: Session, event: RecordEvent, camera: int, track: Channel)
    requires
        can_apart(s),
        numbers_differ(s.ids),
        0 <= camera < s.ids.len(),
        s.concerns(event),
    ensures
        s.next(event).0.can == s.can,
        s.next(event).0.ids == s.ids,
        track_data(s.next(event).1, number_of(s.ids[camera], track)) == media_received(
            seq![event],
            camera,
            track,
        ),
{
    let id = number_of(s.ids[camera], track);
    assert(s.ids[camera].video != s.can && s.ids[camera].depth != s.can);
    if s.waiting().len() > 0 {
        track_data_of_one(s.waiting()[0], id);
        assert(s.waiting() =~= seq![s.waiting()[0]]);
    }
    assert(track_data(s.waiting(), id) =~= Seq::empty());
    let events = seq![event];
    assert(events.drop_last() =~= Seq::empty());
    assert(media_received(events.drop_last(), camera, track) =~= Seq::empty());
    match event {
        RecordEvent::Media { source, channel, segment: Some(m) } => {
            let written = s.next(event).1;
            let media = written[0];
            assert(written =~= seq![media] + s.waiting());
            track_data_of_one(media, id);
            track_data_of_sum(seq![media], s.waiting(), id);
            assert(media.track_id == number_of(s.ids[source as int], channel));
            assert(media.track_id == id <==> source == camera && channel == track);
        },
        _ => {},
    }
}

/// Every media segment of a camera's track is written to the track with its number, whole and once, in
/// the order in which they came, and nothing else is.
pub proof fn no_media_is_lost(s: Session, events: Seq<RecordEvent>, camera: int, track: Channel)
    requires
        can_apart(s),
        numbers_differ(s.ids),
        0 <= camera < s.ids.len(),
        forall|i: int|
            0 <= i < events.len() ==> after(s, #[trigger] events.take(i)).concerns(events[i]),
    ensures
        track_data(written(s, events), number_of(s.ids[camera], track)) == media_received(
            events,
            camera,
            track,
        ),
        after(s, events).can == s.can,
        after(s, events).ids == s.ids,
    decreases events.len(),
{
    if events.len() > 0 {
        let before = events.drop_last();
        let event = events.last();
        let id = number_of(s.ids[camera], track);
        assert forall|i: int| 0 <= i < before.len() implies after(
            s,
            #[trigger] before.take(i),
        ).concerns(before[i]) by {
            assert(before.take(i) =~= events.take(i));
        }
        no_media_is_lost(s, before, camera, track);
        assert(events.take(events.len() - 1) =~= before);
        let now = after(s, before);
        step_keeps_media(now, event, camera, track);
        track_data_of_sum(written(s, before), now.next(event).1, id);
        let one = seq![event];
        assert(one.drop_last() =~= Seq::empty());
        assert(media_received(one.drop_last(), camera, track) =~= Seq::empty());
        assert(media_received(events, camera, track) =~= media_received(before, camera, track)
            + media_received(one, camera, track));
    }
}

/// A segment is written with its time and its samples, before the CAN frames that wait for it; one that
/// could not be taken apart is not, and leaves them waiting.
pub proof fn media_keeps_its_samples(s: Session, source: usize, channel: Channel, m: MediaSegment)
    requires
        source < s.ids.len(),
    ensures
        ({
            let written = s.next(RecordEvent::Media { source, channel, segment: Some(m) }).1;
            &&& written.len() > 0
            &&& written[0].base_decode_time == m.base_decode_time
            &&& written[0].samples == m.samples@
            &&& written[0].data == m.data@
            &&& written.skip(1) == s.next(RecordEvent::Stopped).1
        }),
        s.next(RecordEvent::Media { source, channel, segment: None }) == (s, Seq::<Piece>::empty()),
{
    let written = s.next(RecordEvent::Media { source, channel, segment: Some(m) }).1;
    assert(written.skip(1) =~= s.waiting());
}

/// A track that has ended is not read any more, and the others are read as before.
pub proof fn only_the_ended_track_ends(s: Session, source: usize, channel: Channel, camera: int, track: Channel)
    requires
        source < s.reading.len(),
        0 <= camera < s.reading.len(),
    ensures
        ({
            let now = s.next(RecordEvent::Ended { source, channel }).0.reading;
            let was_read = match track {
                Channel::Video => s.reading[camera].video,
                Channel::Depth => s.reading[camera].depth,
            };
            let is_read = match track {
                Channel::Video => now[camera].video,
                Channel::Depth => now[camera].depth,
            };
            &&& now.len() == s.reading.len()
            &&& is_read == (was_read && !(camera == source && track == channel))
        }),
{
}

} // verus!
