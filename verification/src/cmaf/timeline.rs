//! How the times of frames add up in the muxer.

use super::layout::Sample;
use super::{other_nals, slices, truncated_quotient, MuxerState, Nal};
use crate::annex_b::nal_type_of;
use vstd::prelude::*;

verus! {

/// How long samples last together.
pub open spec fn total_duration(samples: Seq<Sample>) -> int
    decreases samples.len(),
{
    if samples.len() == 0 {
        0
    } else {
        total_duration(samples.drop_last()) + samples.last().duration
    }
}

/// When what is pending ends: its decode time and all its durations.
pub open spec fn end_time(m: MuxerState) -> int {
    m.base_dts + total_duration(m.pending)
}

/// A frame begins a segment or goes on with one. The decode time of a segment is that of its first
/// frame, and where each frame begins as the one before it ends, what is pending ends when the last
/// frame does.
pub proof fn times_add_up(
    m: MuxerState,
    nals: Seq<Nal>,
    pts: i64,
    dts: i64,
    duration: u32,
    is_keyframe: bool,
)
    requires
        m.initialized,
    ensures
        ({
            let after = m.frame_added(nals, pts, dts, duration, is_keyframe);
            let begins = m.pending.len() == 0 || m.should_flush(dts, is_keyframe);
            &&& begins ==> after.base_dts == dts && after.pending.len() == 1
            &&& !begins ==> after.base_dts == m.base_dts && after.pending.drop_last() == m.pending
            &&& begins || dts == end_time(m) ==> end_time(after) == dts + duration
            &&& after.pending.last().duration == duration
            &&& after.pending.last().is_sync == is_keyframe
            &&& i32::MIN <= pts - dts <= i32::MAX ==> after.pending.last().composition_offset + dts == pts
            &&& after.last_dts == dts
            &&& after.sequence_number == m.sequence_number || m.should_flush(dts, is_keyframe)
        }),
{
    let after = m.frame_added(nals, pts, dts, duration, is_keyframe);
    let begins = m.pending.len() == 0 || m.should_flush(dts, is_keyframe);
    assert(after.pending.drop_last() =~= if begins {
        Seq::empty()
    } else {
        m.pending
    });
    assert(total_duration(Seq::<Sample>::empty()) == 0);
}

proof fn quotient_reaches(a: int, b: int, n: int)
    requires
        b > 0,
        a >= 0,
        n >= 0,
    ensures
        truncated_quotient(a, b) >= n <==> a >= n * b,
{
    let q = a / b;
    assert(a == b * q + a % b && 0 <= a % b < b) by (nonlinear_arith)
        requires
            b > 0,
            q == a / b,
    ;
    if q >= n {
        assert(a >= n * b) by (nonlinear_arith)
            requires
                a == b * q + a % b,
                0 <= a % b,
                q >= n,
                b > 0,
        ;
    } else {
        assert(a < n * b) by (nonlinear_arith)
            requires
                a == b * q + a % b,
                a % b < b,
                q + 1 <= n,
                b > 0,
        ;
    }
}

/// A keyframe completes the segment that is pending once that has lasted for the target duration:
/// counted in seconds, `(dts - base_dts) / timescale >= fragment_duration_ms / 1000`. No other
/// frame completes a segment.
pub proof fn keyframes_complete_long_segments(m: MuxerState, dts: i64, is_keyframe: bool)
    requires
        m.initialized,
        m.track.timescale > 0,
        m.pending.len() > 0,
        dts >= m.base_dts,
    ensures
        m.should_flush(dts, is_keyframe) <==> is_keyframe && (dts - m.base_dts) * 1000
            >= m.fragment_duration_ms * m.track.timescale,
{
    quotient_reaches(
        (dts - m.base_dts) * 1000,
        m.track.timescale as int,
        m.fragment_duration_ms as int,
    );
}

/// Of the NAL units of a frame the video slices are kept, each once and in order.
pub proof fn slices_are_kept_in_order(nals: Seq<Nal>)
    ensures
        slices(nals) == nals.filter(|n: Nal| n.nal_type == 5 || n.nal_type == 1).map_values(|n: Nal| n.data),
    decreases nals.len(),
{
    let keep = |n: Nal| n.nal_type == 5 || n.nal_type == 1;
    let bytes = |n: Nal| n.data;
    reveal(Seq::filter);
    if nals.len() > 0 {
        slices_are_kept_in_order(nals.drop_last());
        let before = nals.drop_last().filter(keep);
        if nals.last().is_slice() {
            assert(before.push(nals.last()).map_values(bytes) =~= before.map_values(bytes).push(
                nals.last().data,
            ));
        }
    } else {
        assert(slices(nals) =~= nals.filter(keep).map_values(bytes));
    }
}

/// Of the NAL units of a stream all but the parameter sets are kept, each once, in order and with the
/// type that its first byte states.
pub proof fn all_but_parameter_sets_are_kept(nals: Seq<Seq<u8>>)
    ensures
        other_nals(nals).map_values(|n: Nal| n.data) == nals.filter(
            |n: Seq<u8>| nal_type_of(n) != 7 && nal_type_of(n) != 8,
        ),
        forall|i: int|
            0 <= i < other_nals(nals).len() ==> (#[trigger] other_nals(nals)[i]).nal_type == nal_type_of(
                other_nals(nals)[i].data,
            ),
    decreases nals.len(),
{
    let keep = |n: Seq<u8>| nal_type_of(n) != 7 && nal_type_of(n) != 8;
    let bytes = |n: Nal| n.data;
    reveal(Seq::filter);
    if nals.len() > 0 {
        all_but_parameter_sets_are_kept(nals.drop_last());
        let before = other_nals(nals.drop_last());
        if keep(nals.last()) {
            let last = Nal { data: nals.last(), nal_type: nal_type_of(nals.last()) };
            assert(before.push(last).map_values(bytes) =~= before.map_values(bytes).push(nals.last()));
        }
    } else {
        assert(other_nals(nals).map_values(bytes) =~= nals.filter(keep));
    }
}

} // verus!
