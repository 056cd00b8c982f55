//! What a depth camera server sends, and where it sends it.

use crate::endian::put_bytes;
use crate::moq::{MoqBuilder, Target};
use crate::rates::rounded_down;
use vstd::prelude::*;
use vstd::slice::slice_to_vec;

verus! {

/// A track of CMAF segments: its init segment, once there is one.
#[derive(Debug)]
pub struct TrackFeed {
    init: Option<Vec<u8>>,
}

impl View for TrackFeed {
    type V = Option<Seq<u8>>;

    closed spec fn view(&self) -> Option<Seq<u8>> {
        match self.init {
            Some(init) => Some(init@),
            None => None,
        }
    }
}

/// What a segment is sent as: behind the init segment where it begins with a keyframe, so that
/// those who join late can start there.
pub open spec fn sent(init: Option<Seq<u8>>, segment: Seq<u8>, is_keyframe: bool) -> Seq<u8> {
    match init {
        Some(init) => if is_keyframe {
            init + segment
        } else {
            segment
        },
        None => segment,
    }
}

impl TrackFeed {
    /// There is no init segment yet.
    pub fn new() -> (r: Self)
        ensures
            r@ is None,
    {
        TrackFeed { init: None }
    }

    /// Whether an init segment is to be made of a frame: the first that has a sequence header.
    pub fn needs_init(&self, has_sequence_header: bool) -> (r: bool)
        ensures
            r == (self@ is None && has_sequence_header),
    {
        self.init.is_none() && has_sequence_header
    }

    /// Keeps the init segment and returns what is sent: the segment itself.
    pub fn begin(&mut self, init: Vec<u8>) -> (r: Vec<u8>)
        ensures
            final(self)@ == Some(init@),
            r@ == init@,
    {
        let out = slice_to_vec(init.as_slice());
        assert(out@ =~= init@);
        self.init = Some(init);
        out
    }

    /// What is sent for a segment.
    pub fn publish(&self, segment: &[u8], is_keyframe: bool) -> (r: Vec<u8>)
        ensures
            r@ == sent(self@, segment@, is_keyframe),
    {
        match &self.init {
            Some(init) if is_keyframe => {
                let mut combined = slice_to_vec(init.as_slice());
                put_bytes(&mut combined, segment);
                combined
            },
            _ => {
                let out = slice_to_vec(segment);
                assert(out@ =~= segment@);
                out
            },
        }
    }
}

/// When frame `n` is shown and for how long, in units of 1/90000 s.
pub fn frame_times(n: u64, fps: u32) -> (r: (i64, u32))
    requires
        fps > 0,
        n * 90000 <= i64::MAX,
    ensures
        r.0 == n as int * 90000 / fps as int,
        r.1 == 90000int / fps as int,
        r.0 * fps <= n * 90000 < (r.0 + 1) * fps,
        r.1 * fps <= 90000 < (r.1 + 1) * fps,
{
    proof {
        rounded_down(n as int * 90000, fps as int);
        rounded_down(90000, fps as int);
    }
    let pts: u64 = n * 90000 / fps as u64;
    (pts as i64, 90000 / fps)
}

/// What the depths of a frame amount to.
#[derive(Debug, Clone, Copy, PartialEq, Eq, Structural)]
pub struct DepthStats {
    /// The smallest depth, 65535 where there is none.
    pub min: u16,
    /// The largest depth, 0 where there is none.
    pub max: u16,
    /// How many pixels have a depth.
    pub valid: usize,
}

/// How many depths are not 0.
pub open spec fn valid_count(depths: Seq<u16>) -> nat
    decreases depths.len(),
{
    if depths.len() == 0 {
        0
    } else {
        valid_count(depths.drop_last()) + if depths.last() > 0 {
            1nat
        } else {
            0nat
        }
    }
}

/// The smallest depth but 0, 65535 where there is none.
pub open spec fn least(depths: Seq<u16>) -> u16
    decreases depths.len(),
{
    if depths.len() == 0 {
        u16::MAX
    } else {
        let before = least(depths.drop_last());
        if 0 < depths.last() < before {
            depths.last()
        } else {
            before
        }
    }
}

/// The largest depth, 0 where there is none.
pub open spec fn greatest(depths: Seq<u16>) -> u16
    decreases depths.len(),
{
    if depths.len() == 0 {
        0
    } else {
        let before = greatest(depths.drop_last());
        if depths.last() > before {
            depths.last()
        } else {
            before
        }
    }
}

/// The smallest and the largest depth are depths of the frame and bound all others, and the number
/// of valid pixels is that of the depths that are not 0.
pub proof fn stats_describe_the_depths(depths: Seq<u16>)
    ensures
        valid_count(depths) == depths.filter(|d: u16| d > 0).len(),
        forall|i: int|
            0 <= i < depths.len() ==> #[trigger] depths[i] <= greatest(depths) && (depths[i] > 0 ==> least(
                depths,
            ) <= depths[i]),
        valid_count(depths) > 0 ==> least(depths) > 0 && depths.contains(least(depths)) && depths.contains(
            greatest(depths),
        ),
        valid_count(depths) == 0 ==> least(depths) == 65535 && greatest(depths) == 0,
    decreases depths.len(),
{
    let valid = |d: u16| d > 0;
    reveal(Seq::filter);
    if depths.len() > 0 {
        let before = depths.drop_last();
        stats_describe_the_depths(before);
        assert forall|i: int| 0 <= i < depths.len() implies #[trigger] depths[i] <= greatest(depths) && (
        depths[i] > 0 ==> least(depths) <= depths[i]) by {
            if i < before.len() {
                assert(before[i] == depths[i]);
            }
        }
        if before.contains(least(before)) {
            let k = before.index_of(least(before));
            assert(depths[k] == least(before));
        }
        if before.contains(greatest(before)) {
            let k = before.index_of(greatest(before));
            assert(depths[k] == greatest(before));
        }
        assert(depths[depths.len() - 1] == depths.last());
        if depths.last() > 0 {
            assert(depths.contains(depths.last()));
        }
    }
}

/// Looks at the depths of a frame.
pub fn depth_stats(depths: &[u16]) -> (r: DepthStats)
    ensures
        r.min == least(depths@),
        r.max == greatest(depths@),
        r.valid == valid_count(depths@),
{
    let mut stats = DepthStats { min: u16::MAX, max: 0, valid: 0 };
    let mut i: usize = 0;
    assert(depths@.take(0) =~= Seq::<u16>::empty());
    while i < depths.len()
        invariant
            i <= depths@.len(),
            stats.min == least(depths@.take(i as int)),
            stats.max == greatest(depths@.take(i as int)),
            stats.valid == valid_count(depths@.take(i as int)),
            stats.valid <= i,
        decreases depths@.len() - i,
    {
        let d: u16 = depths[i];
        assert(depths@.take(i + 1).drop_last() =~= depths@.take(i as int));
        assert(depths@.take(i + 1).last() == d);
        if d > 0 {
            stats.valid = stats.valid + 1;
            if d < stats.min {
                stats.min = d;
            }
            if d > stats.max {
                stats.max = d;
            }
        }
        i = i + 1;
    }
    assert(depths@.take(i as int) =~= depths@);
    stats
}

/// How to publish at a relay.
pub fn publisher(relay: &str, path: &str, insecure: bool) -> (r: MoqBuilder)
    ensures
        r@ == (Target {
            relay_url: relay@,
            token: None,
            path: path@,
            disable_tls_verify: insecure,
        }),
{
    let builder = MoqBuilder::new().relay(relay).path(path);
    if insecure {
        builder.disable_tls_verify()
    } else {
        builder
    }
}

/// A relay that a server tries to reach.
#[derive(Debug, Clone, Copy, PartialEq, Eq, Structural)]
pub enum RelayChoice {
    /// The one on the QUIC port, for no longer than 5 seconds.
    Quic,
    /// The one that was given.
    Given,
}

/// What follows an attempt to reach a relay.
#[derive(Debug, Clone, Copy, PartialEq, Eq, Structural)]
pub enum AfterRelay {
    /// Publish there.
    Publish,
    /// Try this one.
    Try(RelayChoice),
    /// Report the error.
    Fail,
}

/// Decides what follows an attempt to reach a relay.
pub fn after_relay(choice: RelayChoice, reached: bool) -> (r: AfterRelay)
    ensures
        r == (if reached {
            AfterRelay::Publish
        } else if choice == RelayChoice::Quic {
            AfterRelay::Try(RelayChoice::Given)
        } else {
            AfterRelay::Fail
        }),
{
    if reached {
        AfterRelay::Publish
    } else {
        match choice {
            RelayChoice::Quic => AfterRelay::Try(RelayChoice::Given),
            RelayChoice::Given => AfterRelay::Fail,
        }
    }
}

/// Whatever is sent ends with the segment. A segment that begins with a keyframe has the whole init
/// segment in front of it once there is one, and nothing else stands in front of a segment.
pub proof fn keyframes_bring_the_init_segment(init: Seq<u8>, segment: Seq<u8>, is_keyframe: bool)
    ensures
        segment.is_suffix_of(sent(Some(init), segment, is_keyframe)),
        init.is_prefix_of(sent(Some(init), segment, true)),
        sent(Some(init), segment, true).len() == init.len() + segment.len(),
        sent(Some(init), segment, false).len() == segment.len(),
        sent(None, segment, is_keyframe) == segment,
{
    let s = sent(Some(init), segment, is_keyframe);
    assert(s.subrange(s.len() - segment.len(), s.len() as int) =~= segment);
    let t = sent(Some(init), segment, true);
    assert(t.subrange(0, init.len() as int) =~= init);
}

} // verus!
