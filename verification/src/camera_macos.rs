//! Cameras on macOS: frames with four bytes for a pixel, and rows that may be padded.

use crate::pixels::rgb_at;
use vstd::arithmetic::div_mod::lemma_fundamental_div_mod_converse;
use vstd::prelude::*;
use vstd::slice::{slice_subrange, slice_to_vec};

verus! {

/// The session preset for a resolution, and the size that it delivers.
pub fn preset_for(width: u32, height: u32) -> (r: (&'static str, u32, u32))
    ensures
        if width >= 1920 && height >= 1080 {
            r.0@ == "AVCaptureSessionPreset1920x1080"@ && r.1 == 1920 && r.2 == 1080
        } else if width >= 1280 && height >= 720 {
            r.0@ == "AVCaptureSessionPreset1280x720"@ && r.1 == 1280 && r.2 == 720
        } else {
            r.0@ == "AVCaptureSessionPreset640x480"@ && r.1 == 640 && r.2 == 480
        },
{
    if width >= 1920 && height >= 1080 {
        ("AVCaptureSessionPreset1920x1080", 1920, 1080)
    } else if width >= 1280 && height >= 720 {
        ("AVCaptureSessionPreset1280x720", 1280, 720)
    } else {
        ("AVCaptureSessionPreset640x480", 640, 480)
    }
}

/// Where pixel `i` of a frame with padded rows begins.
pub open spec fn pixel_place(w: int, bytes_per_row: int, i: int) -> int {
    i / w * bytes_per_row + i % w * 4
}

/// The first `n` pixels as red, green and blue. Pixels that are not there are left out.
pub open spec fn rgb_pixels(bgra: Seq<u8>, w: int, bytes_per_row: int, n: int) -> Seq<u8>
    decreases n,
{
    if n <= 0 {
        Seq::empty()
    } else {
        let at = pixel_place(w, bytes_per_row, n - 1);
        rgb_pixels(bgra, w, bytes_per_row, n - 1) + if at + 2 < bgra.len() {
            seq![bgra[at + 2], bgra[at + 1], bgra[at]]
        } else {
            Seq::empty()
        }
    }
}

proof fn all_pixels_there(bgra: Seq<u8>, w: int, bytes_per_row: int, n: int, i: int)
    requires
        forall|k: int| 0 <= k < n ==> (#[trigger] pixel_place(w, bytes_per_row, k)) + 2 < bgra.len(),
        0 <= n,
        0 <= i <= n,
    ensures
        rgb_pixels(bgra, w, bytes_per_row, n).len() == 3 * n,
        i < n ==> ({
            let at = pixel_place(w, bytes_per_row, i);
            rgb_at(rgb_pixels(bgra, w, bytes_per_row, n), i) == (bgra[at + 2], bgra[at + 1], bgra[at])
        }),
    decreases n,
{
    if n > 0 {
        let (s, t) = (rgb_pixels(bgra, w, bytes_per_row, n), rgb_pixels(bgra, w, bytes_per_row, n - 1));
        if i < n - 1 {
            all_pixels_there(bgra, w, bytes_per_row, n - 1, i);
            assert(s[3 * i] == t[3 * i] && s[3 * i + 1] == t[3 * i + 1] && s[3 * i + 2] == t[3 * i + 2]);
        } else {
            all_pixels_there(bgra, w, bytes_per_row, n - 1, n - 1);
        }
    }
}

proof fn places_are_there(w: int, h: int, bytes_per_row: int, len: int)
    requires
        0 < w,
        0 < h,
        4 * w <= bytes_per_row,
        (h - 1) * bytes_per_row + 4 * w <= len,
    ensures
        forall|k: int| 0 <= k < w * h ==> 0 <= (#[trigger] pixel_place(w, bytes_per_row, k)) && pixel_place(
            w,
            bytes_per_row,
            k,
        ) + 4 <= len,
{
    assert forall|k: int| 0 <= k < w * h implies 0 <= (#[trigger] pixel_place(w, bytes_per_row, k))
        && pixel_place(w, bytes_per_row, k) + 4 <= len by {
        let (q, m) = (k / w, k % w);
        assert(k == w * q + m && 0 <= m < w && 0 <= q) by (nonlinear_arith)
            requires
                w > 0,
                k >= 0,
                q == k / w,
                m == k % w,
        ;
        assert(q < h) by (nonlinear_arith)
            requires
                w * q <= k,
                k < w * h,
                w > 0,
        ;
        assert(0 <= q * bytes_per_row <= (h - 1) * bytes_per_row) by (nonlinear_arith)
            requires
                0 <= q <= h - 1,
                0 <= bytes_per_row,
        ;
    }
}

/// Of a frame that is all there, pixel `(x, y)` stands in row `y`, `x` pixels of 4 bytes from its
/// beginning, as blue, green and red; rows are `bytes_per_row` bytes apart.
pub proof fn pixels_turn_from_bgr_to_rgb(
    bgra: Seq<u8>,
    w: int,
    h: int,
    bytes_per_row: int,
    x: int,
    y: int,
)
    requires
        0 <= x < w,
        0 <= y < h,
        4 * w <= bytes_per_row,
        (h - 1) * bytes_per_row + 4 * w <= bgra.len(),
    ensures
        ({
            let rgb = rgb_pixels(bgra, w, bytes_per_row, w * h);
            let at = y * bytes_per_row + 4 * x;
            &&& rgb.len() == 3 * (w * h)
            &&& 0 <= y * w + x < w * h
            &&& rgb_at(rgb, y * w + x) == (bgra[at + 2], bgra[at + 1], bgra[at])
        }),
{
    let i = y * w + x;
    assert(0 <= y * w && y * w + w <= w * h) by (nonlinear_arith)
        requires
            0 <= y,
            y + 1 <= h,
            0 <= w,
    ;
    lemma_fundamental_div_mod_converse(i, w, y, x);
    places_are_there(w, h, bytes_per_row, bgra.len() as int);
    all_pixels_there(bgra, w, bytes_per_row, w * h, i);
}

/// Convert BGRA buffer (with possible row padding) to tightly packed RGB.
pub fn bgra_to_rgb(bgra: &[u8], width: u32, height: u32, bytes_per_row: usize) -> (r: Vec<u8>)
    requires
        height * bytes_per_row + width * 4 <= usize::MAX,
    ensures
        r@ == rgb_pixels(bgra@, width as int, bytes_per_row as int, width * height),
{
    assert(height * bytes_per_row >= 0) by (nonlinear_arith)
        requires
            height >= 0,
            bytes_per_row >= 0,
    ;
    let w: usize = width as usize;
    let mut rgb: Vec<u8> = Vec::new();
    let mut y: u32 = 0;
    let mut row_start: usize = 0;
    while y < height
        invariant
            y <= height,
            w == width,
            row_start == y * bytes_per_row,
            height * bytes_per_row + width * 4 <= usize::MAX,
            rgb@ == rgb_pixels(bgra@, width as int, bytes_per_row as int, y * width),
        decreases height - y,
    {
        assert(y * bytes_per_row + bytes_per_row <= height * bytes_per_row && (y + 1)
            * bytes_per_row == y * bytes_per_row + bytes_per_row && y * width >= 0 && (y + 1)
            * width == y * width + width) by (nonlinear_arith)
            requires
                0 <= y,
                y + 1 <= height,
                bytes_per_row >= 0,
                width >= 0,
        ;
        let mut x: usize = 0;
        while x < w
            invariant
                x <= w,
                w == width,
                y * width >= 0,
                row_start == y * bytes_per_row,
                row_start + width * 4 <= usize::MAX,
                rgb@ == rgb_pixels(bgra@, width as int, bytes_per_row as int, y * width + x),
            decreases w - x,
        {
            let idx: usize = row_start + x * 4;
            proof {
                lemma_fundamental_div_mod_converse(
                    y * width + x,
                    width as int,
                    y as int,
                    x as int,
                );
                assert(idx == pixel_place(width as int, bytes_per_row as int, y * width + x));
            }
            let ghost before = rgb@;
            if idx < bgra.len() && bgra.len() - idx > 2 {
                rgb.push(bgra[idx + 2]);
                rgb.push(bgra[idx + 1]);
                rgb.push(bgra[idx]);
                assert(rgb@ =~= before + seq![
                    bgra@[idx + 2],
                    bgra@[idx + 1],
                    bgra@[idx as int],
                ]);
            } else {
                assert(before + Seq::<u8>::empty() =~= before);
            }
            x = x + 1;
        }
        y = y + 1;
        row_start = row_start + bytes_per_row;
    }
    assert(height * width == width * height) by (nonlinear_arith);
    rgb
}

/// The first `n` rows without their padding. Rows that are not all there are left out.
pub open spec fn unpadded_rows(bgra: Seq<u8>, row_len: int, bytes_per_row: int, n: int) -> Seq<u8>
    decreases n,
{
    if n <= 0 {
        Seq::empty()
    } else {
        let start = (n - 1) * bytes_per_row;
        unpadded_rows(bgra, row_len, bytes_per_row, n - 1) + if start + row_len <= bgra.len() {
            bgra.subrange(start, start + row_len)
        } else {
            Seq::empty()
        }
    }
}

/// The pixels of a frame without padding.
pub open spec fn packed(bgra: Seq<u8>, w: int, h: int, bytes_per_row: int) -> Seq<u8> {
    if bytes_per_row == w * 4 {
        bgra.take(w * 4 * h)
    } else {
        unpadded_rows(bgra, w * 4, bytes_per_row, h)
    }
}

proof fn row_of_unpadded(bgra: Seq<u8>, row_len: int, bytes_per_row: int, n: int, y: int)
    requires
        0 <= row_len,
        0 <= y <= n,
        forall|k: int| 0 <= k < n ==> 0 <= (#[trigger] (k * bytes_per_row)) && k * bytes_per_row + row_len
            <= bgra.len(),
    ensures
        unpadded_rows(bgra, row_len, bytes_per_row, n).len() == n * row_len,
        y < n ==> 0 <= y * row_len && y * row_len + row_len <= n * row_len && unpadded_rows(
            bgra,
            row_len,
            bytes_per_row,
            n,
        ).subrange(y * row_len, y * row_len + row_len) == bgra.subrange(
            y * bytes_per_row,
            y * bytes_per_row + row_len,
        ),
    decreases n,
{
    assert(n * row_len == (n - 1) * row_len + row_len && 0 * row_len == 0) by (nonlinear_arith);
    if n > 0 {
        let (s, t) = (
            unpadded_rows(bgra, row_len, bytes_per_row, n),
            unpadded_rows(bgra, row_len, bytes_per_row, n - 1),
        );
        let start = (n - 1) * bytes_per_row;
        assert(0 <= start && start + row_len <= bgra.len());
        let last = if y < n - 1 {
            y
        } else {
            n - 1
        };
        row_of_unpadded(bgra, row_len, bytes_per_row, n - 1, last);
        if y < n - 1 {
            assert(s.subrange(y * row_len, y * row_len + row_len) =~= t.subrange(
                y * row_len,
                y * row_len + row_len,
            ));
        } else if y == n - 1 {
            assert(0 <= (n - 1) * row_len) by (nonlinear_arith)
                requires
                    n >= 1,
                    row_len >= 0,
            ;
            assert(s.subrange(y * row_len, y * row_len + row_len) =~= bgra.subrange(start, start + row_len));
        }
    }
}

/// Row `y` of a frame without padding is row `y` of the frame, up to its padding.
pub proof fn packed_rows_are_the_rows(bgra: Seq<u8>, w: int, h: int, bytes_per_row: int, y: int)
    requires
        0 < w,
        0 <= y < h,
        4 * w <= bytes_per_row,
        (h - 1) * bytes_per_row + 4 * w <= bgra.len(),
    ensures
        packed(bgra, w, h, bytes_per_row).len() == 4 * w * h,
        0 <= y * (4 * w),
        y * (4 * w) + 4 * w <= 4 * w * h,
        packed(bgra, w, h, bytes_per_row).subrange(y * (4 * w), y * (4 * w) + 4 * w) == bgra.subrange(
            y * bytes_per_row,
            y * bytes_per_row + 4 * w,
        ),
{
    let n = 4 * w;
    let b = bytes_per_row;
    assert(w * 4 == n && w * 4 * h == n * h && h * n == n * h && 4 * w * h == n * h) by (nonlinear_arith)
        requires
            n == 4 * w,
    ;
    assert(0 <= y * n && y * n + n <= n * h && 0 <= y * b && y * b <= (h - 1) * b) by (nonlinear_arith)
        requires
            0 <= y <= h - 1,
            0 <= n,
            0 <= b,
    ;
    if b == n {
        assert((h - 1) * b + n == n * h) by (nonlinear_arith)
            requires
                b == n,
        ;
        assert(bgra.take(n * h).subrange(y * n, y * n + n) =~= bgra.subrange(y * b, y * b + n));
    } else {
        assert forall|k: int| 0 <= k < h implies 0 <= (#[trigger] (k * b)) && k * b + n <= bgra.len() by {
            assert(0 <= k * b <= (h - 1) * b) by (nonlinear_arith)
                requires
                    0 <= k <= h - 1,
                    0 <= b,
            ;
        }
        row_of_unpadded(bgra, n, b, h, y);
    }
}

/// Extract tightly packed BGRA data from a buffer that may have row padding.
pub fn extract_packed_bgra(bgra: &[u8], width: u32, height: u32, bytes_per_row: usize) -> (r: Vec<
    u8,
>)
    requires
        height * bytes_per_row + width * 4 <= usize::MAX,
        bytes_per_row == width * 4 ==> width * 4 * height <= bgra@.len(),
    ensures
        r@ == packed(bgra@, width as int, height as int, bytes_per_row as int),
{
    assert(height * bytes_per_row >= 0) by (nonlinear_arith)
        requires
            height >= 0,
            bytes_per_row >= 0,
    ;
    let packed_row: usize = width as usize * 4;
    if bytes_per_row == packed_row {
        assert(height * bytes_per_row == width * 4 * height && width * 4 * height >= 0) by (nonlinear_arith)
            requires
                bytes_per_row == width * 4,
                width >= 0,
                height >= 0,
        ;
        assert(width * 4 * height <= 0xFFFF_FFFF * 4 * 0xFFFF_FFFF) by (nonlinear_arith)
            requires
                0 <= width <= 0xFFFF_FFFF,
                0 <= height <= 0xFFFF_FFFF,
        ;
        let total: usize = (width as u128 * 4 * height as u128) as usize;
        let r = slice_to_vec(slice_subrange(bgra, 0, total));
        assert(r@ =~= bgra@.take(width * 4 * height));
        r
    } else {
        let mut out: Vec<u8> = Vec::new();
        let mut y: u32 = 0;
        let mut start: usize = 0;
        while y < height
            invariant
                y <= height,
                packed_row == width * 4,
                start == y * bytes_per_row,
                height * bytes_per_row + width * 4 <= usize::MAX,
                out@ == unpadded_rows(bgra@, packed_row as int, bytes_per_row as int, y as int),
            decreases height - y,
        {
            assert(y * bytes_per_row + bytes_per_row <= height * bytes_per_row && (y + 1)
                * bytes_per_row == y * bytes_per_row + bytes_per_row) by (nonlinear_arith)
                requires
                    0 <= y,
                    y + 1 <= height,
                    bytes_per_row >= 0,
            ;
            let end: usize = start + packed_row;
            let ghost before = out@;
            if end <= bgra.len() {
                let row = slice_subrange(bgra, start, end);
                assert(row@ == bgra@.subrange(start as int, end as int));
                out.extend_from_slice(row);
                assert(out@ =~= before + row@);
            } else {
                assert(before + Seq::<u8>::empty() =~= before);
            }
            y = y + 1;
            start = start + bytes_per_row;
        }
        out
    }
}

} // verus!
