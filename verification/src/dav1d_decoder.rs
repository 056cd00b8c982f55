//! Pictures of the dav1d decoder.

use crate::av1_decoder;
use crate::av1_decoder::{depth_is_the_value_shifted_back, depths_of};
use crate::endian::{get_le16, le16, le16_at, le16_round_trip, le16_truncates, low16, put_le16};
use vstd::arithmetic::div_mod::lemma_fundamental_div_mod_converse;
use vstd::arithmetic::power2::pow2;
use vstd::prelude::*;

verus! {

/// Bits per component of a frame, from the bit depth of the picture.
pub fn bits_per_component(bit_depth: usize) -> (r: u8)
    ensures
        r == (if bit_depth > 8 {
            10u8
        } else {
            8u8
        }),
{
    if bit_depth > 8 {
        10
    } else {
        8
    }
}

/// Where the sample of pixel `i` stands in a plane with 2 bytes for a pixel.
pub open spec fn sample_place(width: int, stride: int, i: int) -> int {
    i / width * stride + i % width * 2
}

/// The first `n` pixels of a plane, row by row, each moved 6 bits to the left. Pixels that are
/// not there are left out.
pub open spec fn aligned_pixels(plane: Seq<u8>, width: int, stride: int, n: int) -> Seq<u8>
    decreases n,
{
    if n <= 0 {
        Seq::empty()
    } else {
        let at = sample_place(width, stride, n - 1);
        aligned_pixels(plane, width, stride, n - 1) + if at + 1 < plane.len() {
            le16(le16_at(plane, at) * 64)
        } else {
            Seq::empty()
        }
    }
}

proof fn all_pixels_there(plane: Seq<u8>, width: int, stride: int, n: int, i: int)
    requires
        forall|k: int| 0 <= k < n ==> (#[trigger] sample_place(width, stride, k)) + 1 < plane.len(),
        0 <= n,
        0 <= i <= n,
    ensures
        aligned_pixels(plane, width, stride, n).len() == 2 * n,
        i < n ==> le16_at(aligned_pixels(plane, width, stride, n), 2 * i) == (le16_at(
            plane,
            sample_place(width, stride, i),
        ) * 64) % 0x1_0000,
    decreases n,
{
    if n > 0 {
        let before = aligned_pixels(plane, width, stride, n - 1);
        let all = aligned_pixels(plane, width, stride, n);
        let x = le16_at(plane, sample_place(width, stride, n - 1)) * 64;
        if i < n - 1 {
            all_pixels_there(plane, width, stride, n - 1, i);
            assert(all[2 * i] == before[2 * i] && all[2 * i + 1] == before[2 * i + 1]);
        } else {
            all_pixels_there(plane, width, stride, n - 1, n - 1);
            le16_round_trip(x);
            assert(all[2 * (n - 1)] == le16(x)[0] && all[2 * (n - 1) + 1] == le16(x)[1]);
        }
    }
}

/// Of a plane that is all there, the sample of pixel `(x, y)` is the one in row `y`, `x` samples from
/// its beginning; rows are `stride` bytes apart. It is moved to the top of its 16 bits, so that a
/// ten-bit value reads back as a depth.
pub proof fn pixels_keep_their_places(
    plane: Seq<u8>,
    width: int,
    height: int,
    stride: int,
    x: int,
    y: int,
)
    requires
        0 <= x < width,
        0 <= y < height,
        2 * width <= stride,
        (height - 1) * stride + 2 * width <= plane.len(),
    ensures
        ({
            let r = aligned_pixels(plane, width, stride, width * height);
            let i = y * width + x;
            let value = le16_at(plane, y * stride + 2 * x);
            &&& r.len() == 2 * (width * height)
            &&& 0 <= i < width * height
            &&& value < 1024 ==> le16_at(r, 2 * i) == 64 * value && depths_of(r, 0)[i] == value
        }),
{
    let n = width * height;
    let i = y * width + x;
    assert(0 <= y * width && y * width + width <= width * height) by (nonlinear_arith)
        requires
            0 <= y,
            y + 1 <= height,
            0 <= width,
    ;
    assert forall|k: int| 0 <= k < n implies (#[trigger] sample_place(width, stride, k)) + 1 < plane.len() by {
        let (q, m) = (k / width, k % width);
        assert(k == width * q + m && 0 <= m < width) by (nonlinear_arith)
            requires
                width > 0,
                q == k / width,
                m == k % width,
        ;
        assert(q < height) by (nonlinear_arith)
            requires
                width * q <= k,
                k < width * height,
                width > 0,
        ;
        assert(q * stride <= (height - 1) * stride) by (nonlinear_arith)
            requires
                q <= height - 1,
                0 <= stride,
        ;
    }
    lemma_fundamental_div_mod_converse(i, width, y, x);
    assert(sample_place(width, stride, i) == y * stride + 2 * x);
    all_pixels_there(plane, width, stride, n, i);
    let value = le16_at(plane, y * stride + 2 * x);
    if value < 1024 {
        assert(pow2(0) == 1) by {
            reveal(vstd::arithmetic::power::pow);
        }
        depth_is_the_value_shifted_back(value, 0, 0);
    }
}

/// Extract the Y plane from a 10-bit picture as P010-formatted bytes.
///
/// Native samples are right-aligned; P010 has the ten bits at the top of each sample.
pub fn extract_y_plane_10bit(y_plane: &[u8], width: usize, height: usize, stride: usize) -> (r: Vec<
    u8,
>)
    requires
        width * height <= usize::MAX,
        height * stride + width * 2 <= usize::MAX,
    ensures
        r@ == aligned_pixels(y_plane@, width as int, stride as int, width * height),
{
    let mut out: Vec<u8> = Vec::new();
    let mut row: usize = 0;
    let mut row_start: usize = 0;
    while row < height
        invariant
            row <= height,
            row_start == row * stride,
            height * stride + width * 2 <= usize::MAX,
            out@ == aligned_pixels(y_plane@, width as int, stride as int, row * width),
        decreases height - row,
    {
        assert(row * stride + stride <= height * stride) by (nonlinear_arith)
            requires
                row + 1 <= height,
                stride >= 0,
        ;
        let mut col: usize = 0;
        while col < width
            invariant
                row < height,
                col <= width,
                row_start == row * stride,
                row_start + width * 2 <= usize::MAX,
                out@ == aligned_pixels(y_plane@, width as int, stride as int, row * width + col),
            decreases width - col,
        {
            let at: usize = row_start + col * 2;
            proof {
                lemma_fundamental_div_mod_converse(
                    row * width + col,
                    width as int,
                    row as int,
                    col as int,
                );
                assert(at == sample_place(width as int, stride as int, row * width + col));
                assert(row * width >= 0) by (nonlinear_arith)
                    requires
                        row >= 0,
                        width >= 0,
                ;
            }
            let ghost before = out@;
            if at < y_plane.len() && y_plane.len() - at > 1 {
                let native: u16 = get_le16(y_plane, at);
                let aligned: u16 = low16(native as u64 * 64);
                proof {
                    le16_truncates(aligned as int, native * 64);
                }
                put_le16(&mut out, aligned);
                assert(out@ =~= before + le16(le16_at(y_plane@, at as int) * 64));
            } else {
                assert(before + Seq::<u8>::empty() =~= before);
            }
            col = col + 1;
        }
        assert(row * width + width == (row + 1) * width) by (nonlinear_arith);
        assert((row + 1) * stride == row * stride + stride) by (nonlinear_arith);
        row = row + 1;
        row_start = row_start + stride;
    }
    assert(height * width == width * height) by (nonlinear_arith);
    out
}

/// Convert P010 Y-plane u16 values to depth in millimeters.
pub fn p010_y_to_depth_mm(y_data: &[u8], depth_shift: u32) -> (r: Vec<u16>)
    requires
        depth_shift < 32,
    ensures
        r@ == depths_of(y_data@, depth_shift as nat),
{
    av1_decoder::p010_y_to_depth_mm(y_data, depth_shift)
}

} // verus!
