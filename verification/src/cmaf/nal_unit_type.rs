//! H.264 NAL unit type constants.

use vstd::prelude::*;

verus! {

/// Non-IDR slice (P/B frame)
pub const NON_IDR_SLICE: u8 = 1;

/// IDR slice (keyframe)
pub const IDR_SLICE: u8 = 5;

/// Supplemental enhancement information
pub const SEI: u8 = 6;

/// Sequence parameter set
pub const SPS: u8 = 7;

/// Picture parameter set
pub const PPS: u8 = 8;

} // verus!
