//! Decoded AV1 frames, and the depth that their luma stands for.

use crate::endian::{get_le16, le16_at};
use vstd::arithmetic::div_mod::lemma_mul_mod_noop_right;
use vstd::arithmetic::power2::{lemma_pow2_unfold, pow2};
use vstd::prelude::*;

verus! {

/// A decoded video frame.
#[derive(Debug)]
pub struct DecodedFrame {
    /// Width in pixels.
    pub width: u32,
    /// Height in pixels.
    pub height: u32,
    /// Raw pixel data (RGB u8 for 8-bit color, or raw Y-plane u16 LE for 10-bit depth).
    pub data: Vec<u8>,
    /// Bits per component (8 or 10).
    pub bits_per_component: u8,
}

/// The depth that a 16-bit luma sample stands for: its top ten bits, shifted to the left, in 16
/// bits.
pub open spec fn depth_of(sample: int, depth_shift: nat) -> int {
    (sample / 64 * pow2(depth_shift) as int) % 0x1_0000
}

/// The depths that a luma plane of 16-bit little-endian samples stands for.
pub open spec fn depths_of(y: Seq<u8>, depth_shift: nat) -> Seq<u16> {
    Seq::new(y.len() / 2, |i: int| depth_of(le16_at(y, 2 * i), depth_shift) as u16)
}

/// A ten-bit value that stands at the top of a sample gives the depth that it was made of: the value
/// times two to the shift. What stands below the ten bits does not count.
pub proof fn depth_is_the_value_shifted_back(value: int, low: int, depth_shift: nat)
    requires
        0 <= value < 1024,
        0 <= low < 64,
        value * pow2(depth_shift) < 0x1_0000,
    ensures
        depth_of(value * 64 + low, depth_shift) == value * pow2(depth_shift),
        depth_of(value * 64 + low, 0) == value,
{
    assert((value * 64 + low) / 64 == value);
    assert(value * pow2(depth_shift) >= 0) by (nonlinear_arith)
        requires
            value >= 0,
            pow2(depth_shift) >= 0,
    ;
    assert(pow2(0) == 1) by {
        reveal(vstd::arithmetic::power::pow);
    }
}

/// `2` to the power of `e`, in 16 bits.
fn low_power(e: u32) -> (r: u32)
    ensures
        r == pow2(e as nat) as int % 0x1_0000,
{
    let mut r: u32 = 1;
    let mut k: u32 = 0;
    assert(pow2(0) == 1) by {
        reveal(vstd::arithmetic::power::pow);
    }
    while k < e
        invariant
            k <= e,
            r == pow2(k as nat) as int % 0x1_0000,
        decreases e - k,
    {
        proof {
            lemma_pow2_unfold((k + 1) as nat);
            lemma_mul_mod_noop_right(2, pow2(k as nat) as int, 0x1_0000);
        }
        r = (2 * r) % 0x1_0000;
        k = k + 1;
    }
    r
}

/// Convert P010/P016 Y-plane u16 values to depth in millimeters.
///
/// 10-bit values are stored MSB-aligned in u16: `val = gray10 << 6`. With depth encoded as
/// `gray10 = min(depth_mm >> depth_shift, 1023)`, `depth_mm = (val >> 6) << depth_shift`.
pub fn p010_y_to_depth_mm(y_data: &[u8], depth_shift: u32) -> (r: Vec<u16>)
    requires
        depth_shift < 32,
    ensures
        r@ == depths_of(y_data@, depth_shift as nat),
{
    let pixel_count: usize = y_data.len() / 2;
    let factor: u32 = low_power(depth_shift);
    let mut depth: Vec<u16> = Vec::new();
    let mut i: usize = 0;
    while i < pixel_count
        invariant
            i <= pixel_count,
            pixel_count == y_data.len() / 2,
            factor == pow2(depth_shift as nat) as int % 0x1_0000,
            depth@ == depths_of(y_data@, depth_shift as nat).take(i as int),
        decreases pixel_count - i,
    {
        let val: u16 = get_le16(y_data, i * 2);
        let gray10: u16 = val / 64;
        assert(gray10 * factor <= 1023 * 0xFFFF) by (nonlinear_arith)
            requires
                0 <= gray10 <= 1023,
                0 <= factor <= 0xFFFF,
        ;
        let mm: u32 = (gray10 as u32 * factor) % 0x1_0000;
        proof {
            lemma_mul_mod_noop_right(gray10 as int, pow2(depth_shift as nat) as int, 0x1_0000);
        }
        depth.push(mm as u16);
        i = i + 1;
        assert(depth@ =~= depths_of(y_data@, depth_shift as nat).take(i as int));
    }
    assert(depth@ =~= depths_of(y_data@, depth_shift as nat));
    depth
}

/// Whether frames of this bit depth are depth frames: their luma is kept as it is.
pub fn is_high_bitdepth(bit_depth: u8) -> (r: bool)
    ensures
        r == (bit_depth > 8),
{
    bit_depth > 8
}

} // verus!
