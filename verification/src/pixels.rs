//! Where the samples of a pixel stand in a frame.
//!
//! Missing luma is black, missing chroma is without color.

use vstd::arithmetic::div_mod::lemma_fundamental_div_mod_converse;
use vstd::prelude::*;

verus! {

/// The byte at a place, or a default where there is none.
pub open spec fn byte_or(s: Seq<u8>, at: int, default: u8) -> u8 {
    if at < s.len() {
        s[at]
    } else {
        default
    }
}

/// Reads a byte, or a default where there is none.
pub fn get_or(s: &[u8], at: usize, default: u8) -> (r: u8)
    ensures
        r == byte_or(s@, at as int, default),
{
    if at < s.len() {
        s[at]
    } else {
        default
    }
}

/// Where the chroma of a pixel begins behind the luma of a frame in two planes.
pub open spec fn chroma_place(w: int, h: int, x: int, y: int) -> int {
    w * h + y / 2 * w + x / 2 * 2
}

/// The luma and chroma of a pixel of a frame in two planes.
pub open spec fn nv12_at(nv12: Seq<u8>, w: int, h: int, x: int, y: int) -> (u8, u8, u8) {
    let c = chroma_place(w, h, x, y);
    (byte_or(nv12, y * w + x, 0), byte_or(nv12, c, 128), byte_or(nv12, c + 1, 128))
}

/// The luma and chroma of a pixel of a frame in three planes, whose rows may be padded.
pub open spec fn i420_at(
    planes: (Seq<u8>, Seq<u8>, Seq<u8>),
    strides: (int, int, int),
    x: int,
    y: int,
) -> (u8, u8, u8) {
    (
        byte_or(planes.0, y * strides.0 + x, 0),
        byte_or(planes.1, y / 2 * strides.1 + x / 2, 128),
        byte_or(planes.2, y / 2 * strides.2 + x / 2, 128),
    )
}

/// The luma of two pixels in a row of a YUYV frame, and the chroma that they share.
pub open spec fn yuyv_at(yuyv: Seq<u8>, i: int) -> (u8, u8, u8, u8) {
    (
        byte_or(yuyv, 2 * i, 0),
        byte_or(yuyv, 2 * i + 1, 128),
        byte_or(yuyv, 2 * i + 2, 0),
        byte_or(yuyv, 2 * i + 3, 128),
    )
}

/// The red, green and blue of a pixel.
pub open spec fn rgb_at(rgb: Seq<u8>, i: int) -> (u8, u8, u8) {
    (byte_or(rgb, 3 * i, 0), byte_or(rgb, 3 * i + 1, 0), byte_or(rgb, 3 * i + 2, 0))
}

/// Where the width is even, the chroma pairs stand one after another behind the luma, row by row
/// of squares: pair `k` of them begins at `w * h + 2 * k`. So the four pixels of a square share a
/// pair, and two squares have no byte in common.
pub proof fn pairs_tile_the_chroma_plane(w: int, h: int, x: int, y: int, p: int, q: int)
    requires
        w % 2 == 0,
        h >= 0,
        0 <= x < w,
        0 <= y < h,
        0 <= p < w,
        0 <= q < h,
    ensures
        chroma_place(w, h, x, y) == w * h + 2 * (y / 2 * (w / 2) + x / 2),
        chroma_place(w, h, 0, 0) == w * h,
        w * h <= chroma_place(w, h, x, y),
        chroma_place(w, h, x, y) + 2 <= w * h + (h + 1) / 2 * w,
        x / 2 == p / 2 && y / 2 == q / 2 ==> chroma_place(w, h, x, y) == chroma_place(w, h, p, q),
        x / 2 != p / 2 || y / 2 != q / 2 ==> chroma_place(w, h, x, y) + 2 <= chroma_place(w, h, p, q)
            || chroma_place(w, h, p, q) + 2 <= chroma_place(w, h, x, y),
{
    let v = w / 2;
    assert(w == 2 * v);
    let (a, b, c, d) = (x / 2, y / 2, p / 2, q / 2);
    assert(0 <= a < v && 0 <= c < v);
    assert(b * w == 2 * (b * v) && d * w == 2 * (d * v)) by (nonlinear_arith)
        requires
            w == 2 * v,
    ;
    assert(0int / 2 * w == 0) by (nonlinear_arith);
    let n = (h + 1) / 2;
    assert(0 <= b < n);
    assert(0 <= b * v && b * v + v <= n * v && n * w == 2 * (n * v)) by (nonlinear_arith)
        requires
            0 <= b,
            b + 1 <= n,
            0 <= v,
            w == 2 * v,
    ;
    if b < d {
        assert(b * v + v <= d * v) by (nonlinear_arith)
            requires
                b + 1 <= d,
                0 <= v,
        ;
    }
    if d < b {
        assert(d * v + v <= b * v) by (nonlinear_arith)
            requires
                d + 1 <= b,
                0 <= v,
        ;
    }
}

/// Whatever the width, chroma begins behind the luma, the next square to the right has its pair right
/// behind, and the next row of squares begins a width later. The pixels of a square share a pair.
pub proof fn chroma_rows_are_a_width_apart(w: int, h: int, x: int, y: int)
    requires
        0 <= x,
        0 <= y,
    ensures
        chroma_place(w, h, 0, 0) == w * h,
        chroma_place(w, h, x + 2, y) == chroma_place(w, h, x, y) + 2,
        chroma_place(w, h, x, y + 2) == chroma_place(w, h, x, y) + w,
        chroma_place(w, h, x / 2 * 2, y / 2 * 2) == chroma_place(w, h, x, y),
        chroma_place(w, h, x / 2 * 2 + 1, y / 2 * 2 + 1) == chroma_place(w, h, x, y),
{
    let k = y / 2;
    assert((y + 2) / 2 == k + 1 && (x + 2) / 2 == x / 2 + 1);
    assert((k + 1) * w == k * w + w) by (nonlinear_arith);
    assert(0 * w == 0) by (nonlinear_arith);
}

proof fn luma_stands_in_its_plane(w: int, h: int, x: int, y: int, p: int, q: int)
    requires
        0 <= x < w,
        0 <= y < h,
        0 <= p < w,
        0 <= q < h,
    ensures
        0 <= y * w + x < w * h,
        y * w + x == q * w + p <==> x == p && y == q,
{
    assert(0 <= y * w && y * w + w <= w * h) by (nonlinear_arith)
        requires
            0 <= y,
            y + 1 <= h,
            0 <= w,
    ;
    if y < q {
        assert(y * w + w <= q * w) by (nonlinear_arith)
            requires
                y + 1 <= q,
                0 <= w,
        ;
    }
    if q < y {
        assert(q * w + w <= y * w) by (nonlinear_arith)
            requires
                q + 1 <= y,
                0 <= w,
        ;
    }
}

/// A pixel of a frame that is made of a luma plane and pairs of chroma, blue first: the luma at its
/// own place, the pair at the place of its square.
pub proof fn pixel_of_two_planes(luma: Seq<u8>, chroma: Seq<u8>, w: int, h: int, x: int, y: int)
    requires
        w % 2 == 0,
        0 <= x < w,
        0 <= y < h,
        luma.len() == w * h,
        chroma.len() >= (h + 1) / 2 * w,
    ensures
        ({
            let k = y / 2 * (w / 2) + x / 2;
            nv12_at(luma + chroma, w, h, x, y) == (luma[y * w + x], chroma[2 * k], chroma[2 * k + 1])
        }),
{
    pairs_tile_the_chroma_plane(w, h, x, y, x, y);
    luma_stands_in_its_plane(w, h, x, y, x, y);
    let c = chroma_place(w, h, x, y);
    assert((luma + chroma)[c] == chroma[c - w * h]);
    assert((luma + chroma)[c + 1] == chroma[c + 1 - w * h]);
}

/// Three planes hold the same picture as two planes whose chroma pairs take blue and red in turn.
pub proof fn planes_agree(
    luma: Seq<u8>,
    blue: Seq<u8>,
    red: Seq<u8>,
    w: int,
    h: int,
    x: int,
    y: int,
)
    requires
        w % 2 == 0,
        0 <= x < w,
        0 <= y < h,
        luma.len() == w * h,
        blue.len() == (h + 1) / 2 * (w / 2),
        red.len() == blue.len(),
    ensures
        ({
            let chroma = Seq::new(
                2 * blue.len(),
                |i: int|
                    if i % 2 == 0 {
                        blue[i / 2]
                    } else {
                        red[i / 2]
                    },
            );
            i420_at((luma, blue, red), (w, w / 2, w / 2), x, y) == nv12_at(luma + chroma, w, h, x, y)
        }),
{
    let chroma = Seq::new(
        2 * blue.len(),
        |i: int|
            if i % 2 == 0 {
                blue[i / 2]
            } else {
                red[i / 2]
            },
    );
    let v = w / 2;
    let n = (h + 1) / 2;
    let b = y / 2;
    assert(n * w == 2 * (n * v)) by (nonlinear_arith)
        requires
            w == 2 * v,
    ;
    assert(0 <= b * v && b * v + v <= n * v) by (nonlinear_arith)
        requires
            0 <= b,
            b + 1 <= n,
            0 <= v,
    ;
    pixel_of_two_planes(luma, chroma, w, h, x, y);
    luma_stands_in_its_plane(w, h, x, y, x, y);
}

/// Pixel `i` of a frame, behind the bytes of the pixels before it.
pub proof fn packed_pixels(before: Seq<u8>, rest: Seq<u8>, i: int, a: u8, b: u8, c: u8, d: u8)
    ensures
        before.len() == 2 * i ==> yuyv_at(before + seq![a, b, c, d] + rest, i) == (a, b, c, d),
        before.len() == 3 * i ==> rgb_at(before + seq![a, b, c] + rest, i) == (a, b, c),
        before.len() == 2 * i ==> yuyv_at(before, i) == (0u8, 128u8, 0u8, 128u8),
        before.len() == 3 * i ==> rgb_at(before, i) == (0u8, 0u8, 0u8),
{
}

/// The luma and chroma of a pixel of a frame in two planes.
pub fn nv12_pixel(nv12: &[u8], width: usize, height: usize, x: usize, y: usize) -> (r: (u8, u8, u8))
    requires
        x < width,
        y < height,
        width * height * 2 <= usize::MAX,
    ensures
        r == nv12_at(nv12@, width as int, height as int, x as int, y as int),
{
    assert(0 <= y * width && y * width + width <= width * height && 0 <= y / 2 * width && 2 * (y / 2
        * width) <= y * width && 0 <= width * height) by (nonlinear_arith)
        requires
            0 <= width,
            0 <= y,
            y + 1 <= height,
    ;
    let luma: u8 = get_or(nv12, y * width + x, 0);
    let half: usize = y / 2;
    let at: usize = width * height + half * width + x / 2 * 2;
    (luma, get_or(nv12, at, 128), get_or(nv12, at + 1, 128))
}

/// The luma and chroma of a pixel of a frame in three planes, whose rows may be padded.
pub fn i420_pixel(
    planes: (&[u8], &[u8], &[u8]),
    strides: (usize, usize, usize),
    x: usize,
    y: usize,
) -> (r: (u8, u8, u8))
    requires
        y * strides.0 + x <= usize::MAX,
        y / 2 * strides.1 + x / 2 <= usize::MAX,
        y / 2 * strides.2 + x / 2 <= usize::MAX,
    ensures
        r == i420_at(
            (planes.0@, planes.1@, planes.2@),
            (strides.0 as int, strides.1 as int, strides.2 as int),
            x as int,
            y as int,
        ),
{
    assert(0 <= y * strides.0 && 0 <= y / 2 * strides.1 && 0 <= y / 2 * strides.2) by (nonlinear_arith)
        requires
            0 <= y,
            0 <= strides.0,
            0 <= strides.1,
            0 <= strides.2,
    ;
    let half: usize = y / 2;
    (
        get_or(planes.0, y * strides.0 + x, 0),
        get_or(planes.1, half * strides.1 + x / 2, 128),
        get_or(planes.2, half * strides.2 + x / 2, 128),
    )
}

/// The luma of two pixels in a row of a YUYV frame, and the chroma that they share: the first
/// luma, blue, the second luma, red. `i` is the number of the first pixel.
pub fn yuyv_pair(yuyv: &[u8], i: usize) -> (r: (u8, u8, u8, u8))
    requires
        2 * i + 3 <= usize::MAX,
    ensures
        r == yuyv_at(yuyv@, i as int),
{
    (
        get_or(yuyv, 2 * i, 0),
        get_or(yuyv, 2 * i + 1, 128),
        get_or(yuyv, 2 * i + 2, 0),
        get_or(yuyv, 2 * i + 3, 128),
    )
}

/// The red, green and blue of pixel `i`.
pub fn rgb_pixel(rgb: &[u8], i: usize) -> (r: (u8, u8, u8))
    requires
        3 * i + 2 <= usize::MAX,
    ensures
        r == rgb_at(rgb@, i as int),
{
    (get_or(rgb, 3 * i, 0), get_or(rgb, 3 * i + 1, 0), get_or(rgb, 3 * i + 2, 0))
}

/// A frame in two planes once a pixel has been written. Of four pixels in a square, the first
/// one's chroma counts.
pub open spec fn with_pixel(
    frame: Seq<u8>,
    w: int,
    h: int,
    x: int,
    y: int,
    pixel: (u8, u8, u8),
) -> Seq<u8> {
    let c = chroma_place(w, h, x, y);
    let luma = frame.update(y * w + x, pixel.0);
    if x % 2 == 0 && y % 2 == 0 {
        luma.update(c, pixel.1).update(c + 1, pixel.2)
    } else {
        luma
    }
}

/// What is read of a frame after a pixel was written: its own luma, and for its whole square the
/// chroma of the square's first pixel. All other pixels are as they were.
pub proof fn written_pixel_reads_back(
    frame: Seq<u8>,
    w: int,
    h: int,
    x: int,
    y: int,
    pixel: (u8, u8, u8),
    p: int,
    q: int,
)
    requires
        w % 2 == 0,
        0 <= x < w,
        0 <= y < h,
        0 <= p < w,
        0 <= q < h,
        frame.len() >= w * h + (h + 1) / 2 * w,
    ensures
        ({
            let before = nv12_at(frame, w, h, p, q);
            let after = nv12_at(with_pixel(frame, w, h, x, y, pixel), w, h, p, q);
            &&& after.0 == (if (p, q) == (x, y) {
                pixel.0
            } else {
                before.0
            })
            &&& (after.1, after.2) == (if (p / 2 * 2, q / 2 * 2) == (x, y) {
                (pixel.1, pixel.2)
            } else {
                (before.1, before.2)
            })
        }),
{
    pairs_tile_the_chroma_plane(w, h, x, y, p, q);
    pairs_tile_the_chroma_plane(w, h, p, q, x, y);
    luma_stands_in_its_plane(w, h, x, y, p, q);
    luma_stands_in_its_plane(w, h, p, q, x, y);
    assert(p / 2 * 2 == x && q / 2 * 2 == y ==> x % 2 == 0 && y % 2 == 0);
}

/// Writes a pixel to a frame in two planes.
pub fn put_nv12(
    frame: &mut Vec<u8>,
    width: usize,
    height: usize,
    x: usize,
    y: usize,
    pixel: (u8, u8, u8),
)
    requires
        x < width,
        y < height,
        width * height <= old(frame)@.len(),
        x % 2 == 0 && y % 2 == 0 ==> chroma_place(width as int, height as int, x as int, y as int) + 1
            < old(frame)@.len(),
    ensures
        final(frame)@ == with_pixel(
            old(frame)@,
            width as int,
            height as int,
            x as int,
            y as int,
            pixel,
        ),
{
    assert(0 <= y * width && y * width + width <= width * height && 0 <= y / 2 * width && 2 * (y / 2
        * width) <= y * width && 0 <= width * height) by (nonlinear_arith)
        requires
            0 <= width,
            0 <= y,
            y + 1 <= height,
    ;
    assert(frame@.len() == frame.len());
    frame.set(y * width + x, pixel.0);
    if x % 2 == 0 && y % 2 == 0 {
        let half: usize = y / 2;
        let at: usize = width * height + half * width + x;
        assert(at == chroma_place(width as int, height as int, x as int, y as int));
        frame.set(at, pixel.1);
        frame.set(at + 1, pixel.2);
    }
}

proof fn unpadded_place(plane: Seq<u8>, w: int, h: int, stride: int, x: int, y: int)
    requires
        0 <= x < w <= stride,
        0 <= y < h,
        h * stride <= plane.len(),
    ensures
        0 <= y * stride + x < plane.len(),
        0 <= y * w + x < w * h,
        without_padding(plane, w, h, stride).len() == w * h,
        without_padding(plane, w, h, stride)[y * w + x] == plane[y * stride + x],
{
    assert(0 <= y * stride && y * stride + stride <= h * stride && 0 <= y * w && y * w + w <= w * h)
        by (nonlinear_arith)
        requires
            0 <= y,
            y + 1 <= h,
            0 <= w <= stride,
    ;
    lemma_fundamental_div_mod_converse(y * w + x, w, y, x);
}

/// A plane whose rows are padded, without the padding.
pub open spec fn without_padding(plane: Seq<u8>, w: int, h: int, stride: int) -> Seq<u8> {
    Seq::new((w * h) as nat, |i: int| plane[i / w * stride + i % w])
}

/// Each plane has padding of its own, and what stands there belongs to no pixel: without it the frame
/// is the same.
pub proof fn padding_is_passed_over(
    planes: (Seq<u8>, Seq<u8>, Seq<u8>),
    strides: (int, int, int),
    w: int,
    h: int,
    x: int,
    y: int,
)
    requires
        0 <= x < w <= strides.0,
        0 <= y < h,
        (w + 1) / 2 <= strides.1,
        (w + 1) / 2 <= strides.2,
        h * strides.0 <= planes.0.len(),
        (h + 1) / 2 * strides.1 <= planes.1.len(),
        (h + 1) / 2 * strides.2 <= planes.2.len(),
    ensures
        ({
            let (hw, hh) = ((w + 1) / 2, (h + 1) / 2);
            let packed = (
                without_padding(planes.0, w, h, strides.0),
                without_padding(planes.1, hw, hh, strides.1),
                without_padding(planes.2, hw, hh, strides.2),
            );
            i420_at(planes, strides, x, y) == i420_at(packed, (w, hw, hw), x, y)
        }),
{
    let (hw, hh) = ((w + 1) / 2, (h + 1) / 2);
    unpadded_place(planes.0, w, h, strides.0, x, y);
    unpadded_place(planes.1, hw, hh, strides.1, x / 2, y / 2);
    unpadded_place(planes.2, hw, hh, strides.2, x / 2, y / 2);
}

} // verus!
