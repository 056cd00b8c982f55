//! Hardware encoding: how an encoder is set up, which frames are whole pictures, and frames in
//! the layout that it takes (a luma plane, then chroma at half the size).

use crate::pixels::{byte_or, get_or, nv12_at, yuyv_at};
use crate::rates::rounded_down;
use vstd::arithmetic::div_mod::lemma_fundamental_div_mod_converse;
use vstd::prelude::*;
use vstd::slice::{slice_subrange, slice_to_vec};

verus! {

/// How an encoder controls its rate.
#[derive(Debug, Clone, Copy, PartialEq, Eq, Structural)]
pub enum RateControl {
    /// A constant bitrate.
    Bitrate(u32),
    /// A constant quantization parameter.
    ConstQP(u32),
}

/// How an encoder is tuned.
#[derive(Debug, Clone, Copy, PartialEq, Eq, Structural)]
pub enum Preset {
    /// Preset P4, for ultra-low latency.
    P4UltraLowLatency,
    /// Preset P7, for high quality.
    P7HighQuality,
}

/// How an encoder is set up.
#[derive(Debug, Clone, Copy, PartialEq, Eq, Structural)]
pub struct EncoderSettings {
    pub preset: Preset,
    /// Frames from one whole picture to the next.
    pub gop_length: u32,
    pub rate: RateControl,
    /// Size of the rate control buffer, in bits, where the bitrate is constant.
    pub vbv_buffer_size: Option<u32>,
    /// Bits of a sample beyond 8.
    pub bit_depth_minus8: u32,
}

impl EncoderSettings {
    /// The settings for a frame rate. The rate control buffer holds one frame's worth of bits.
    pub fn new(fps: u32, ten_bit: bool, rc: RateControl) -> (r: Self)
        requires
            fps > 0,
        ensures
            r == (EncoderSettings {
                preset: match rc {
                    RateControl::Bitrate(_) => Preset::P4UltraLowLatency,
                    RateControl::ConstQP(_) => Preset::P7HighQuality,
                },
                gop_length: fps,
                rate: rc,
                vbv_buffer_size: match rc {
                    RateControl::Bitrate(bitrate) => Some(bitrate / fps),
                    RateControl::ConstQP(_) => None,
                },
                bit_depth_minus8: if ten_bit {
                    2
                } else {
                    0
                },
            }),
            r.vbv_buffer_size matches Some(bits) ==> rc matches RateControl::Bitrate(bitrate) && bits * fps
                <= bitrate && bitrate < (bits + 1) * fps,
    {
        proof {
            if let RateControl::Bitrate(bitrate) = rc {
                rounded_down(bitrate as int, fps as int);
            }
        }
        let bit_depth_minus8: u32 = if ten_bit {
            2
        } else {
            0
        };
        let (preset, vbv_buffer_size) = match rc {
            RateControl::Bitrate(bitrate) => (Preset::P4UltraLowLatency, Some(bitrate / fps)),
            RateControl::ConstQP(_) => (Preset::P7HighQuality, None),
        };
        EncoderSettings { preset, gop_length: fps, rate: rc, vbv_buffer_size, bit_depth_minus8 }
    }
}

/// Bytes of a frame: 12 bits for a pixel, or 24 where a sample has 16 bits.
pub fn buffer_size(width: u32, height: u32, ten_bit: bool) -> (r: u32)
    requires
        width * height * 3 <= u32::MAX,
    ensures
        r == (if ten_bit {
            width * height * 3
        } else {
            width * height * 3 / 2
        }),
{
    assert(width * height >= 0) by (nonlinear_arith)
        requires
            width >= 0,
            height >= 0,
    ;
    let pixels: u32 = width * height;
    if ten_bit {
        pixels * 3
    } else {
        pixels * 3 / 2
    }
}

/// Counts the frames that an encoder was given.
#[derive(Debug, Clone, Copy, PartialEq, Eq, Structural)]
pub struct PictureClock {
    pub frame_count: u64,
    pub fps: u32,
}

impl PictureClock {
    /// No frame yet.
    pub fn new(fps: u32) -> (r: Self)
        ensures
            r == (PictureClock { frame_count: 0, fps }),
    {
        PictureClock { frame_count: 0, fps }
    }

    /// Starts over, so that the next frame is a whole picture.
    pub fn reset(&mut self)
        ensures
            *final(self) == (PictureClock { frame_count: 0, ..*old(self) }),
    {
        self.frame_count = 0;
    }

    /// Whether the next frame is a whole picture: the first one is, and then one each second.
    pub fn next_is_idr(&mut self) -> (r: bool)
        requires
            old(self).fps > 0,
            old(self).frame_count < u64::MAX,
        ensures
            r == (old(self).frame_count % (old(self).fps as u64) == 0),
            *final(self) == (PictureClock {
                frame_count: (old(self).frame_count + 1) as u64,
                ..*old(self)
            }),
    {
        let is_idr = self.frame_count % (self.fps as u64) == 0;
        self.frame_count = self.frame_count + 1;
        is_idr
    }
}

/// Copies a frame into the encoder's buffer.
pub fn load(buffer: &mut Vec<u8>, data: &[u8])
    requires
        data@.len() <= old(buffer)@.len(),
    ensures
        final(buffer)@ == data@ + old(buffer)@.skip(data@.len() as int),
{
    let rest = slice_to_vec(slice_subrange(buffer.as_slice(), data.len(), buffer.len()));
    let mut out = slice_to_vec(data);
    out.extend_from_slice(&rest);
    assert(out@ =~= data@ + old(buffer)@.skip(data@.len() as int));
    *buffer = out;
}

/// Byte `i` of a YUYV frame of `w` times `h` pixels in planes. Two pixels in a row share their
/// chroma; of two rows, the upper one's is kept.
pub open spec fn nv12_byte(yuyv: Seq<u8>, w: int, h: int, i: int) -> u8 {
    if i < w * h {
        byte_or(yuyv, 2 * i, 0)
    } else {
        let j = i - w * h;
        let pair = (2 * (j / w) * w + j % w / 2 * 2) * 2;
        if j % w % 2 == 0 {
            byte_or(yuyv, pair + 1, 128)
        } else {
            byte_or(yuyv, pair + 3, 128)
        }
    }
}

/// A YUYV frame in planes. Missing luma is black, missing chroma without color.
pub open spec fn yuyv_as_nv12(yuyv: Seq<u8>, w: int, h: int) -> Seq<u8> {
    Seq::new((w * h * 3 / 2) as nat, |i: int| nv12_byte(yuyv, w, h, i))
}

/// The planes of a YUYV frame: each pixel keeps its luma, and each square of four pixels has the
/// chroma of the pair that its upper left pixel belongs to, blue then red, one square after
/// another and one row of squares after another.
pub proof fn planes_of_yuyv(yuyv: Seq<u8>, w: int, h: int, x: int, y: int)
    requires
        w % 2 == 0,
        h % 2 == 0,
        0 <= x < w,
        0 <= y < h,
    ensures
        ({
            let planes = yuyv_as_nv12(yuyv, w, h);
            let square = yuyv_at(yuyv, y / 2 * 2 * w + x / 2 * 2);
            let own = yuyv_at(yuyv, y * w + x);
            &&& 2 * planes.len() == 3 * (w * h)
            &&& planes[y * w + x] == own.0
            &&& x % 2 == 0 && y % 2 == 0 ==> planes[w * h + y / 2 * w + x] == own.1 && planes[w * h + y / 2
                * w + x + 1] == own.3
            &&& nv12_at(planes, w, h, x, y) == (own.0, square.1, square.3)
        }),
{
    let planes = yuyv_as_nv12(yuyv, w, h);
    let (half, row, col) = (h / 2, y / 2, x / 2 * 2);
    assert(0 <= y * w && y * w + w <= w * h && 0 <= row * w && row * w + w <= half * w && w * h == 2 * (half
        * w) && row * 2 * w == 2 * (row * w) && 2 * row * w == 2 * (row * w)) by (nonlinear_arith)
        requires
            0 <= y,
            y + 1 <= h,
            h == 2 * half,
            row + 1 <= half,
            0 <= row,
            0 <= w,
    ;
    assert(0 <= col && col + 1 < w);
    lemma_fundamental_div_mod_converse(row * w + col, w, row, col);
    lemma_fundamental_div_mod_converse(row * w + col + 1, w, row, col + 1);
    let i = w * h + row * w + col;
    assert(planes[i] == nv12_byte(yuyv, w, h, i));
    assert(planes[i + 1] == nv12_byte(yuyv, w, h, i + 1));
    assert((col + 1) % 2 == 1);
    if y % 2 == 0 {
        assert(y * w == 2 * (row * w)) by (nonlinear_arith)
            requires
                y == 2 * row,
        ;
    }
}

/// Converts a YUYV frame for the encoder. Where there are pixels, both sides must be even, as
/// planes at half the size ask for.
pub fn yuyv_to_nv12(yuyv: &[u8], width: u32, height: u32) -> (r: Vec<u8>)
    requires
        width > 0 && height > 0 ==> width % 2 == 0 && height % 2 == 0,
        width * height * 3 <= u32::MAX,
    ensures
        r@ == yuyv_as_nv12(yuyv@, width as int, height as int),
{
    if width == 0 || height == 0 {
        assert(width * height == 0) by (nonlinear_arith)
            requires
                width == 0 || height == 0,
        ;
        return Vec::new();
    }
    assert(width * height >= 0) by (nonlinear_arith)
        requires
            width >= 0,
            height >= 0,
    ;
    let pixels: u32 = width * height;
    let rows: u32 = height / 2;
    let ghost w = width as int;
    let ghost h = height as int;
    let ghost all = yuyv_as_nv12(yuyv@, w, h);
    assert(w * h * 3 / 2 == w * h + rows * w) by (nonlinear_arith)
        requires
            h == 2 * rows,
    ;
    let mut out: Vec<u8> = Vec::new();
    let mut i: u32 = 0;
    while i < pixels
        invariant
            i <= pixels == w * h,
            pixels * 3 <= u32::MAX,
            all == yuyv_as_nv12(yuyv@, w, h),
            all.len() >= w * h,
            out@ == all.take(i as int),
        decreases pixels - i,
    {
        out.push(get_or(yuyv, i as usize * 2, 0));
        i = i + 1;
        assert(out@ =~= all.take(i as int));
    }
    let mut row: u32 = 0;
    let mut row_at: u32 = 0;
    while row < rows
        invariant
            row <= rows,
            w == width,
            width % 2 == 0,
            h == 2 * rows,
            pixels == w * h,
            pixels * 3 <= u32::MAX,
            row_at == 2 * row * w,
            all == yuyv_as_nv12(yuyv@, w, h),
            all.len() == w * h + rows * w,
            out@ == all.take(w * h + row * w),
        decreases rows - row,
    {
        assert(2 * row * w + 2 * w <= w * h && row * w >= 0 && row * w + w <= rows * w && (row + 1)
            * w == row * w + w && 2 * (row + 1) * w == 2 * row * w + 2 * w) by (nonlinear_arith)
            requires
                0 <= row,
                row + 1 <= rows,
                h == 2 * rows,
                w >= 0,
        ;
        let mut x: u32 = 0;
        while x < width
            invariant
                x <= width,
                x % 2 == 0,
                w == width,
                width % 2 == 0,
                row < rows,
                pixels == w * h,
                pixels * 3 <= u32::MAX,
                row_at == 2 * row * w,
                row_at + 2 * w <= w * h,
                row * w >= 0,
                row * w + w <= rows * w,
                all == yuyv_as_nv12(yuyv@, w, h),
                all.len() == w * h + rows * w,
                out@ == all.take(w * h + row * w + x),
            decreases width - x,
        {
            let pair: usize = (row_at + x) as usize * 2;
            proof {
                lemma_fundamental_div_mod_converse(row * w + x, w, row as int, x as int);
                lemma_fundamental_div_mod_converse(row * w + x + 1, w, row as int, x + 1);
                assert(2 * row * w == 2 * (row as int) * w);
                let i = w * h + row * w + x;
                assert(nv12_byte(yuyv@, w, h, i) == byte_or(yuyv@, pair + 1, 128));
                assert(nv12_byte(yuyv@, w, h, i + 1) == byte_or(yuyv@, pair + 3, 128));
            }
            out.push(get_or(yuyv, pair + 1, 128));
            assert(out@ =~= all.take(w * h + row * w + x + 1));
            out.push(get_or(yuyv, pair + 3, 128));
            assert(out@ =~= all.take(w * h + row * w + x + 2));
            x = x + 2;
        }
        row = row + 1;
        row_at = row_at + 2 * width;
    }
    assert(out@ =~= all);
    out
}

/// A grey frame of `n` pixels in planes, without color.
pub open spec fn grey_as_nv12(grey: Seq<u8>, n: int) -> Seq<u8> {
    grey.take(n) + Seq::new((n * 3 / 2 - n) as nat, |i: int| 128u8)
}

/// Converts a grey frame for the encoder.
pub fn grey_to_nv12(grey: &[u8], width: u32, height: u32) -> (r: Vec<u8>)
    requires
        width * height * 3 <= u32::MAX,
        width * height <= grey@.len(),
    ensures
        r@ == grey_as_nv12(grey@, width * height),
{
    assert(width * height >= 0) by (nonlinear_arith)
        requires
            width >= 0,
            height >= 0,
    ;
    let pixels: u32 = width * height;
    let mut out = slice_to_vec(slice_subrange(grey, 0, pixels as usize));
    assert(out@ =~= grey@.take(pixels as int));
    let chroma: u32 = pixels * 3 / 2 - pixels;
    let ghost all = grey_as_nv12(grey@, pixels as int);
    let mut i: u32 = 0;
    assert(out@ =~= all.take(pixels + 0));
    while i < chroma
        invariant
            i <= chroma,
            chroma == pixels * 3 / 2 - pixels,
            pixels <= grey@.len(),
            all == grey_as_nv12(grey@, pixels as int),
            out@ == all.take(pixels + i),
        decreases chroma - i,
    {
        out.push(128);
        i = i + 1;
        assert(out@ =~= all.take(pixels + i));
    }
    assert(out@ =~= all);
    out
}

/// The planes of a grey frame: each pixel has its value as luma, and chroma that stands for no color.
pub proof fn planes_of_grey(grey: Seq<u8>, w: int, h: int, x: int, y: int)
    requires
        w % 2 == 0,
        h % 2 == 0,
        0 <= x < w,
        0 <= y < h,
        w * h <= grey.len(),
    ensures
        2 * grey_as_nv12(grey, w * h).len() == 3 * (w * h),
        nv12_at(grey_as_nv12(grey, w * h), w, h, x, y) == (grey[y * w + x], 128u8, 128u8),
{
    let planes = grey_as_nv12(grey, w * h);
    let (half, row, col) = (h / 2, y / 2, x / 2 * 2);
    assert(0 <= y * w && y * w + w <= w * h && 0 <= row * w && row * w + w <= half * w && w * h == 2 * (half
        * w)) by (nonlinear_arith)
        requires
            0 <= y,
            y + 1 <= h,
            h == 2 * half,
            row + 1 <= half,
            0 <= row,
            0 <= w,
    ;
    assert(planes.len() == w * h + half * w);
}

} // verus!
