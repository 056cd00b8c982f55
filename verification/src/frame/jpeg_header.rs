//! What the frame header of a JPEG file says of the picture, before the file is decoded.

use crate::endian::{be16_at, get_be16};
use vstd::prelude::*;

verus! {

/// The longest side of a picture that can be decoded. Blocks of 8 samples are counted by the
/// place where they end, in 16 bits.
pub const LONGEST_SIDE: u16 = 65528;

/// Where the first marker from `at` on stands: a byte other than 0 and 0xFF behind a byte 0xFF.
pub open spec fn marker_from(s: Seq<u8>, at: int) -> Option<int>
    decreases s.len() - at,
{
    if at + 1 >= s.len() {
        None
    } else if s[at] == 0xFF && s[at + 1] != 0 && s[at + 1] != 0xFF {
        Some(at + 1)
    } else {
        marker_from(s, at + 1)
    }
}

/// A marker that is found stands behind the place where the search began.
pub proof fn marker_comes_later(s: Seq<u8>, at: int)
    ensures
        marker_from(s, at) matches Some(k) ==> at < k < s.len(),
    decreases s.len() - at,
{
    if at + 1 < s.len() && !(s[at] == 0xFF && s[at + 1] != 0 && s[at + 1] != 0xFF) {
        marker_comes_later(s, at + 1);
    }
}

/// Whether a marker begins a frame header.
pub open spec fn begins_frame(marker: u8) -> bool {
    0xC0 <= marker <= 0xCF && marker != 0xC4 && marker != 0xC8 && marker != 0xCC
}

/// Where the marker of the first frame header from `at` on stands. Each segment before it is as
/// long as the two bytes behind its marker say.
pub open spec fn frame_header_from(s: Seq<u8>, at: int) -> Option<int>
    decreases s.len() - at,
{
    match marker_from(s, at) {
        Some(k) => if begins_frame(s[k]) {
            Some(k)
        } else if k + 2 >= s.len() || be16_at(s, k + 1) < 2 || k + 1 + be16_at(s, k + 1) > s.len() {
            None
        } else {
            proof {
                marker_comes_later(s, at);
            }
            frame_header_from(s, k + 1 + be16_at(s, k + 1))
        },
        None => None,
    }
}

/// Whether a frame header whose marker stands at `k` announces a picture that can be decoded:
/// one that is not lossless and has no side longer than [`LONGEST_SIDE`]. One that is cut short
/// announces none.
pub open spec fn announces_decodable(s: Seq<u8>, k: int) -> bool {
    k + 7 >= s.len() || (s[k] != 0xC3 && be16_at(s, k + 4) <= LONGEST_SIDE && be16_at(s, k + 6)
        <= LONGEST_SIDE)
}

/// Whether a file has no frame header behind its first two bytes, or one that announces a picture
/// that can be decoded.
pub open spec fn header_decodable(s: Seq<u8>) -> bool {
    match frame_header_from(s, 2) {
        Some(k) => announces_decodable(s, k),
        None => true,
    }
}

fn find_marker(data: &[u8], at: usize) -> (r: Option<usize>)
    ensures
        match r {
            Some(k) => marker_from(data@, at as int) == Some(k as int) && at < k < data@.len(),
            None => marker_from(data@, at as int) is None,
        },
{
    let mut i: usize = at;
    while i < data.len() && data.len() - i >= 2
        invariant
            at <= i,
            marker_from(data@, at as int) == marker_from(data@, i as int),
        decreases data@.len() - i,
    {
        if data[i] == 0xFF && data[i + 1] != 0 && data[i + 1] != 0xFF {
            return Some(i + 1);
        }
        i = i + 1;
    }
    None
}

fn find_frame_header(data: &[u8], at: usize) -> (r: Option<usize>)
    ensures
        match r {
            Some(k) => frame_header_from(data@, at as int) == Some(k as int) && k < data@.len(),
            None => frame_header_from(data@, at as int) is None,
        },
{
    let mut i: usize = at;
    while i < data.len()
        invariant
            frame_header_from(data@, at as int) == frame_header_from(data@, i as int),
        decreases data@.len() - i,
    {
        let k: usize = match find_marker(data, i) {
            Some(k) => k,
            None => return None,
        };
        let marker: u8 = data[k];
        if marker >= 0xC0 && marker <= 0xCF && marker != 0xC4 && marker != 0xC8 && marker != 0xCC {
            return Some(k);
        }
        if data.len() - k <= 2 {
            return None;
        }
        let len: usize = get_be16(data, k + 1) as usize;
        if len < 2 || len > data.len() - k - 1 {
            return None;
        }
        i = k + 1 + len;
    }
    None
}

/// Whether the frame header of a file announces a picture that can be decoded.
pub fn has_decodable_header(data: &[u8]) -> (r: bool)
    ensures
        r == header_decodable(data@),
{
    match find_frame_header(data, 2) {
        Some(k) => data.len() - k <= 7 || (data[k] != 0xC3 && get_be16(data, k + 4) <= LONGEST_SIDE
            && get_be16(data, k + 6) <= LONGEST_SIDE),
        None => true,
    }
}

/// The marker that is found is the first: behind a byte 0xFF, itself neither 0 nor 0xFF, and no such
/// pair stands before it.
pub proof fn marker_is_the_first(s: Seq<u8>, at: int)
    requires
        0 <= at,
    ensures
        marker_from(s, at) matches Some(k) ==> at < k < s.len() && s[k - 1] == 0xFF && s[k] != 0 && s[k]
            != 0xFF,
        forall|j: int|
            at < j < s.len() && (marker_from(s, at) matches Some(k) ==> j < k) ==> s[j - 1] != 0xFF || (
            #[trigger] s[j]) == 0 || s[j] == 0xFF,
    decreases s.len() - at,
{
    if at + 1 < s.len() && !(s[at] == 0xFF && s[at + 1] != 0 && s[at + 1] != 0xFF) {
        marker_is_the_first(s, at + 1);
    }
}

/// A segment that is no frame header is passed over: the search goes on behind it.
pub proof fn other_segments_are_passed_over(s: Seq<u8>, at: int, len: int)
    requires
        0 <= at,
        2 <= len,
        at + 2 + len <= s.len(),
        s[at] == 0xFF,
        s[at + 1] != 0 && s[at + 1] != 0xFF,
        s[at + 1] < 0xC0 || s[at + 1] > 0xCF || s[at + 1] == 0xC4 || s[at + 1] == 0xC8 || s[at + 1] == 0xCC,
        be16_at(s, at + 2) == len,
    ensures
        frame_header_from(s, at) == frame_header_from(s, at + 2 + len),
{
    assert(marker_from(s, at) == Some(at + 1));
}

/// A frame header tells the size of the picture: one that is complete announces a picture that can be
/// decoded if and only if it is not lossless and both of its sides are short enough.
pub proof fn sizes_are_read_from_the_header(s: Seq<u8>, at: int)
    requires
        0 <= at,
        at + 8 < s.len(),
        s[at] == 0xFF,
        0xC0 <= s[at + 1] <= 0xCF,
        s[at + 1] != 0xC4 && s[at + 1] != 0xC8 && s[at + 1] != 0xCC,
    ensures
        frame_header_from(s, at) == Some(at + 1),
        announces_decodable(s, at + 1) <==> s[at + 1] != 0xC3 && (s[at + 5] * 256 + s[at + 6] + 7) / 8
            * 8 < 65536 && (s[at + 7] * 256 + s[at + 8] + 7) / 8 * 8 < 65536,
{
    assert(marker_from(s, at) == Some(at + 1));
}

} // verus!
