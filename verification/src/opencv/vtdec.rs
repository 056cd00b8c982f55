//! What a VideoToolbox decoder is asked to do for an H.264 stream.

use crate::camera_macos::{bgra_to_rgb, rgb_pixels};
use crate::frame::Frame;
use crate::opencv::{annex_b_to_avcc, avcc_of, pps_of, sps_of};
use vstd::prelude::*;
use vstd::slice::slice_to_vec;

verus! {

/// Why nothing was decoded; `frame` counts the frames decoded before.
#[derive(Debug, Clone, Copy, PartialEq, Eq, Structural)]
pub enum VtError {
    /// no SPS/PPS available and no session initialized
    NoParameterSets { frame: u64 },
    /// a frame has no slice data (only SPS/PPS)
    NoSliceData { frame: u64 },
    /// decompression callback produced no frame
    NoFrame { frame: u64 },
}

/// VideoToolbox hardware H.264 decoder for macOS, but for the session itself.
#[derive(Debug)]
pub struct VtDecoder {
    session: bool,
    sps: Vec<u8>,
    pps: Vec<u8>,
    frame_count: u64,
}

/// State of a [`VtDecoder`]: whether there is a session, the parameter sets of the last one, and
/// how many frames were decoded.
#[verifier::ext_equal]
pub struct VtState {
    pub session: bool,
    pub sps: Seq<u8>,
    pub pps: Seq<u8>,
    pub frame_count: u64,
}

impl View for VtDecoder {
    type V = VtState;

    closed spec fn view(&self) -> VtState {
        VtState {
            session: self.session,
            sps: self.sps@,
            pps: self.pps@,
            frame_count: self.frame_count,
        }
    }
}

/// What is to be done with a piece of the stream.
#[derive(Debug)]
pub struct VtWork {
    /// Make a session with the decoder's parameter sets first.
    pub new_session: bool,
    /// The slices to decode, each behind its length.
    pub avcc: Vec<u8>,
}

impl VtState {
    /// The SPS that counts: that of the stream, else the last one.
    pub open spec fn current_sps(self, stream: Seq<u8>) -> Seq<u8> {
        match sps_of(stream) {
            Some(sps) => sps,
            None => self.sps,
        }
    }

    /// The PPS that counts: that of the stream, else the last one.
    pub open spec fn current_pps(self, stream: Seq<u8>) -> Seq<u8> {
        match pps_of(stream) {
            Some(pps) => pps,
            None => self.pps,
        }
    }

    /// Whether both parameter sets are known.
    pub open spec fn configured(self, stream: Seq<u8>) -> bool {
        self.current_sps(stream).len() > 0 && self.current_pps(stream).len() > 0
    }

    /// Whether the session is of no use for a piece of the stream.
    pub open spec fn outdated(self, stream: Seq<u8>) -> bool {
        self.configured(stream) && !(self.session && self.sps == self.current_sps(stream) && self.pps
            == self.current_pps(stream))
    }

    /// The state once an outdated session has been dropped.
    pub open spec fn renewed(self, stream: Seq<u8>) -> VtState {
        if self.outdated(stream) {
            VtState {
                session: false,
                sps: self.current_sps(stream),
                pps: self.current_pps(stream),
                ..self
            }
        } else {
            self
        }
    }
}

fn same_bytes(a: &[u8], b: &[u8]) -> (r: bool)
    ensures
        r == (a@ == b@),
{
    if a.len() != b.len() {
        return false;
    }
    let mut i: usize = 0;
    while i < a.len()
        invariant
            i <= a@.len(),
            a@.len() == b@.len(),
            forall|j: int| 0 <= j < i ==> a@[j] == b@[j],
        decreases a@.len() - i,
    {
        if a[i] != b[i] {
            return false;
        }
        i = i + 1;
    }
    assert(a@ =~= b@);
    true
}

impl VtDecoder {
    /// A decoder that has seen nothing.
    pub fn new() -> (r: Self)
        ensures
            r@ == (VtState {
                session: false,
                sps: Seq::empty(),
                pps: Seq::empty(),
                frame_count: 0,
            }),
    {
        let r = VtDecoder { session: false, sps: Vec::new(), pps: Vec::new(), frame_count: 0 };
        assert(r@ =~= VtState {
            session: false,
            sps: Seq::empty(),
            pps: Seq::empty(),
            frame_count: 0,
        });
        r
    }

    /// The parameter sets that a new session is made with.
    pub fn parameter_sets(&self) -> (r: (&[u8], &[u8]))
        ensures
            r.0@ == self@.sps,
            r.1@ == self@.pps,
    {
        (self.sps.as_slice(), self.pps.as_slice())
    }

    /// Takes in a piece of the stream. Where its parameter sets are new, the session is dropped
    /// and another one is to be made.
    pub fn accept(&mut self, h264_data: &[u8]) -> (r: Result<VtWork, VtError>)
        ensures
            final(self)@ == old(self)@.renewed(h264_data@),
            match r {
                Ok(work) => {
                    &&& old(self)@.configured(h264_data@) || old(self)@.session
                    &&& work.new_session == old(self)@.outdated(h264_data@)
                    &&& work.avcc@ == avcc_of(h264_data@)
                },
                Err(e) => {
                    &&& !old(self)@.configured(h264_data@) && !old(self)@.session
                    &&& e == (VtError::NoParameterSets { frame: old(self)@.frame_count })
                },
            },
    {
        let (avcc, sps, pps) = annex_b_to_avcc(h264_data);
        let sps = match sps {
            Some(s) => s,
            None => slice_to_vec(self.sps.as_slice()),
        };
        let pps = match pps {
            Some(p) => p,
            None => slice_to_vec(self.pps.as_slice()),
        };
        assert(sps@ =~= self@.current_sps(h264_data@));
        assert(pps@ =~= self@.current_pps(h264_data@));
        if sps.len() == 0 || pps.len() == 0 {
            if !self.session {
                return Err(VtError::NoParameterSets { frame: self.frame_count });
            }
            return Ok(VtWork { new_session: false, avcc });
        }
        if self.session && same_bytes(&self.sps, &sps) && same_bytes(&self.pps, &pps) {
            return Ok(VtWork { new_session: false, avcc });
        }
        self.session = false;
        self.sps = sps;
        self.pps = pps;
        Ok(VtWork { new_session: true, avcc })
    }

    /// A new session was made, or could not be.
    pub fn session_made(&mut self, ok: bool)
        ensures
            final(self)@ == (VtState { session: ok, ..old(self)@ }),
    {
        self.session = ok;
    }

    /// When the slices are shown, in frames since the beginning.
    pub fn presentation_time(&self, work: &VtWork) -> (r: Result<u64, VtError>)
        ensures
            r == (if work.avcc@.len() == 0 {
                Err::<u64, VtError>(VtError::NoSliceData { frame: self@.frame_count })
            } else {
                Ok(self@.frame_count)
            }),
    {
        if work.avcc.len() == 0 {
            Err(VtError::NoSliceData { frame: self.frame_count })
        } else {
            Ok(self.frame_count)
        }
    }

    /// The slices were decoded: the frame that came of it, with its time.
    pub fn decoded(&mut self, frame: Option<Frame>, timestamp_us: u64) -> (r: Result<Frame, VtError>)
        requires
            old(self)@.frame_count < u64::MAX,
        ensures
            final(self)@ == (VtState {
                frame_count: (old(self)@.frame_count + 1) as u64,
                ..old(self)@
            }),
            r == (match frame {
                Some(f) => Ok::<Frame, VtError>(Frame { timestamp_us, ..f }),
                None => Err(VtError::NoFrame { frame: old(self)@.frame_count }),
            }),
    {
        let before: u64 = self.frame_count;
        self.frame_count = before + 1;
        match frame {
            Some(f) => {
                let mut stamped = f;
                stamped.timestamp_us = timestamp_us;
                Ok(stamped)
            },
            None => Err(VtError::NoFrame { frame: before }),
        }
    }
}

/// Once a session has been made, pieces of the stream with the same parameter sets, or with
/// none, do not ask for another one.
pub proof fn session_is_kept(s: VtState, first: Seq<u8>, later: Seq<u8>)
    requires
        s.configured(first),
        sps_of(later) is None || sps_of(later) == Some(s.current_sps(first)),
        pps_of(later) is None || pps_of(later) == Some(s.current_pps(first)),
    ensures
        !(VtState { session: true, ..s.renewed(first) }).outdated(later),
{
}

/// A piece of the stream that brings both parameter sets leaves the decoder with them. Where they are
/// new, or there is no session, one is to be made with them, and the frames are counted on.
pub proof fn new_sets_ask_for_a_session(s: VtState, stream: Seq<u8>, sps: Seq<u8>, pps: Seq<u8>)
    requires
        sps_of(stream) == Some(sps),
        pps_of(stream) == Some(pps),
        sps.len() > 0,
        pps.len() > 0,
    ensures
        s.renewed(stream).sps == sps,
        s.renewed(stream).pps == pps,
        s.renewed(stream).frame_count == s.frame_count,
        s.outdated(stream) <==> sps != s.sps || pps != s.pps || !s.session,
        s.outdated(stream) ==> !s.renewed(stream).session,
        !s.outdated(stream) ==> s.renewed(stream) == s,
{
}

/// The frame in a picture with four bytes for a pixel, blue first, and rows that may be padded.
/// An empty picture has none.
pub fn picture_frame(bgra: &[u8], width: u32, height: u32, bytes_per_row: usize) -> (r: Option<Frame>)
    requires
        width * 4 <= bytes_per_row,
        height * bytes_per_row == bgra@.len(),
        bgra@.len() + width * 4 <= usize::MAX,
    ensures
        match r {
            Some(frame) => {
                &&& width > 0 && height > 0
                &&& frame.width == width
                &&& frame.height == height
                &&& frame.data@ == rgb_pixels(
                    bgra@,
                    width as int,
                    bytes_per_row as int,
                    width * height,
                )
                &&& frame.timestamp_us == 0
            },
            None => width == 0 || height == 0,
        },
{
    if width == 0 || height == 0 {
        return None;
    }
    Some(Frame::new(width, height, bgra_to_rgb(bgra, width, height, bytes_per_row)))
}

} // verus!
