//! Frames of the NVDEC decoder.

use crate::av1_decoder;
use crate::av1_decoder::depths_of;
use crate::rates::rounded_down;
use vstd::prelude::*;
use vstd::slice::{slice_subrange, slice_to_vec};

verus! {

/// The bit depth that a decoder assumes before it has seen a sequence header.
pub fn assumed_bit_depth(high_bitdepth: bool) -> (r: u8)
    ensures
        r == (if high_bitdepth {
            10u8
        } else {
            8u8
        }),
{
    if high_bitdepth {
        10
    } else {
        8
    }
}

/// The bit depth after a sequence header: a higher one than 8 bits is taken over.
pub fn sequence_bit_depth(current: u8, luma_minus8: u8) -> (r: u8)
    requires
        luma_minus8 <= 247,
    ensures
        r == (if luma_minus8 > 0 {
            8 + luma_minus8
        } else {
            current as int
        }),
{
    let actual: u8 = 8 + luma_minus8;
    if actual > 8 {
        actual
    } else {
        current
    }
}

/// How many surfaces a decoder gets: what the stream needs, and no fewer than 8.
pub fn surface_count(min_surfaces: u8) -> (r: u64)
    ensures
        r == (if min_surfaces > 8 {
            min_surfaces as int
        } else {
            8
        }),
{
    if min_surfaces > 8 {
        min_surfaces as u64
    } else {
        8
    }
}

/// Bytes of a row of a surface.
pub open spec fn row_bytes(width: int, bit_depth: int) -> int {
    if bit_depth > 8 {
        width * 2
    } else {
        width
    }
}

/// Bytes of a surface: its luma rows and half as many rows of chroma.
pub fn surface_size(width: u32, height: u32, bit_depth: u8) -> (r: u64)
    requires
        width * height * 3 <= u64::MAX,
    ensures
        r == row_bytes(width as int, bit_depth as int) * (height + height / 2),
        height % 2 == 0 ==> 2 * r == (if bit_depth <= 8 {
            3 * (width * height)
        } else {
            6 * (width * height)
        }),
{
    assert(height % 2 == 0 ==> 2 * (width * (height + height / 2)) == 3 * (width * height) && 2 * (width * 2 * (
    height + height / 2)) == 6 * (width * height)) by (nonlinear_arith);
    let row: u64 = if bit_depth > 8 {
        width as u64 * 2
    } else {
        width as u64
    };
    let rows: u64 = height as u64 + height as u64 / 2;
    assert(row * rows <= width * height * 3) by (nonlinear_arith)
        requires
            0 <= row <= width * 2,
            0 <= 2 * rows <= height * 3,
            0 <= width,
            0 <= height,
    ;
    row * rows
}

/// One row of a surface on its way from the decoder, where rows are `pitch` bytes apart.
#[derive(Debug, Clone, Copy, PartialEq, Eq, Structural)]
pub struct RowCopy {
    /// Where it begins on the surface.
    pub from: u64,
    /// Where it goes in the frame.
    pub to: u64,
    pub len: u64,
}

/// Row `y` of a surface; the chroma rows follow those of the luma.
pub open spec fn row_of(y: int, width: int, pitch: int, bit_depth: int) -> RowCopy {
    RowCopy {
        from: (y * pitch) as u64,
        to: (y * row_bytes(width, bit_depth)) as u64,
        len: row_bytes(width, bit_depth) as u64,
    }
}

/// Says how a row of a surface is copied.
pub fn copy_row(y: u32, width: u32, pitch: u32, bit_depth: u8) -> (r: RowCopy)
    requires
        y * row_bytes(width as int, bit_depth as int) <= u64::MAX,
    ensures
        r == row_of(y as int, width as int, pitch as int, bit_depth as int),
        r.from == y * pitch,
        r.to == y * row_bytes(width as int, bit_depth as int),
{
    let len: u64 = if bit_depth > 8 {
        width as u64 * 2
    } else {
        width as u64
    };
    assert(0 <= y * pitch <= u64::MAX && 0 <= y * len <= u64::MAX) by (nonlinear_arith)
        requires
            0 <= y <= 0xFFFF_FFFF,
            0 <= pitch <= 0xFFFF_FFFF,
            0 <= len <= 2 * 0xFFFF_FFFF,
            y * len <= u64::MAX,
    ;
    RowCopy { from: y as u64 * pitch as u64, to: y as u64 * len, len }
}

/// The row after row `y` of a surface with `height` luma rows, if there is one. A row that could
/// not be copied ends its plane.
pub fn next_row(y: u32, height: u32, copied: bool) -> (r: Option<u32>)
    requires
        height + height / 2 <= u32::MAX,
        y < height + height / 2,
    ensures
        ({
            let next = if copied {
                y + 1
            } else if y < height {
                height as int
            } else {
                height + height / 2
            };
            r == (if next < height + height / 2 {
                Some(next as u32)
            } else {
                None
            })
        }),
{
    let rows: u32 = height + height / 2;
    let next: u32 = if copied {
        y + 1
    } else if y < height {
        height
    } else {
        rows
    };
    if next < rows {
        Some(next)
    } else {
        None
    }
}

/// The rows fill a frame from its beginning to its end, without gaps.
pub proof fn rows_fill_the_frame(y: int, width: int, height: int, pitch: int, bit_depth: int)
    requires
        0 <= y < height + height / 2,
        0 <= width,
        row_bytes(width, bit_depth) * (height + height / 2) <= u64::MAX,
    ensures
        row_of(0, width, pitch, bit_depth).to == 0,
        row_of(y, width, pitch, bit_depth).to + row_of(y, width, pitch, bit_depth).len == (if y + 1
            < height + height / 2 {
            row_of(y + 1, width, pitch, bit_depth).to as int
        } else {
            row_bytes(width, bit_depth) * (height + height / 2)
        }),
{
    let n = row_bytes(width, bit_depth);
    let rows = height + height / 2;
    assert(0 <= y * n && y * n + n == (y + 1) * n && (y + 1) * n <= rows * n && n <= rows * n) by (nonlinear_arith)
        requires
            0 <= y,
            y + 1 <= rows,
            0 <= n,
    ;
    assert(n * rows == rows * n) by (nonlinear_arith);
}

/// On the surface rows are `pitch` bytes apart, the first at its beginning, and each is as long as
/// its pixels: one byte for each, two where samples have more than 8 bits.
pub proof fn rows_are_a_pitch_apart(y: int, width: int, pitch: int, bit_depth: int)
    requires
        0 <= y,
        0 <= pitch,
        0 <= width,
        2 * width <= u64::MAX,
        (y + 1) * pitch <= u64::MAX,
    ensures
        row_of(0, width, pitch, bit_depth).from == 0,
        row_of(y + 1, width, pitch, bit_depth).from == row_of(y, width, pitch, bit_depth).from + pitch,
        row_of(y, width, pitch, bit_depth).len == (if bit_depth <= 8 {
            width
        } else {
            width + width
        }),
{
    assert((y + 1) * pitch == y * pitch + pitch && y * pitch >= 0 && 0 * pitch == 0) by (nonlinear_arith)
        requires
            0 <= y,
            0 <= pitch,
    ;
}

/// How many rows of a luma plane with 2 bytes for a pixel are all there.
pub open spec fn whole_rows(len: int, width: int, height: int) -> int {
    if width == 0 {
        0
    } else if height <= len / (2 * width) {
        height
    } else {
        len / (2 * width)
    }
}

/// The rows that are taken are all there, no more than the picture has, and no further one is.
pub proof fn whole_rows_are_there(len: int, width: int, height: int)
    requires
        0 <= len,
        0 < width,
        0 <= height,
    ensures
        0 <= whole_rows(len, width, height) <= height,
        whole_rows(len, width, height) * 2 * width <= len,
        whole_rows(len, width, height) < height ==> len < (whole_rows(len, width, height) + 1) * 2 * width,
{
    let n = whole_rows(len, width, height);
    rounded_down(len, 2 * width);
    let q = len / (2 * width);
    assert(n * 2 * width <= len && (n < height ==> len < (n + 1) * 2 * width)) by (nonlinear_arith)
        requires
            n <= q,
            n < height ==> n == q,
            q * (2 * width) <= len,
            len < (q + 1) * (2 * width),
            0 < width,
    ;
}

/// Extract Y-plane from P016 surface.
pub fn extract_p016_y_plane(data: &[u8], width: usize, height: usize) -> (r: Vec<u8>)
    requires
        width * height * 2 <= usize::MAX,
    ensures
        r@ == data@.take(whole_rows(data@.len() as int, width as int, height as int) * 2 * width),
{
    if width == 0 || height == 0 {
        let r: Vec<u8> = Vec::new();
        assert(0 * 2 * width == 0) by (nonlinear_arith);
        assert(r@ =~= data@.take(0));
        return r;
    }
    assert(width * 2 <= width * height * 2) by (nonlinear_arith)
        requires
            width >= 0,
            height >= 1,
    ;
    let stride: usize = width * 2;
    let there: usize = data.len() / stride;
    let rows: usize = if height <= there {
        height
    } else {
        there
    };
    assert(rows * stride <= width * height * 2 && rows * stride == rows * 2 * width) by (nonlinear_arith)
        requires
            rows <= height,
            stride == width * 2,
            0 <= width,
    ;
    assert(rows * stride <= data@.len()) by (nonlinear_arith)
        requires
            rows <= data@.len() as int / stride as int,
            stride > 0,
            rows >= 0,
            data@.len() >= 0,
    ;
    let r = slice_to_vec(slice_subrange(data, 0, rows * stride));
    assert(r@ =~= data@.take(rows * 2 * width));
    r
}

/// Convert P016 Y-plane u16 values to depth in millimeters.
pub fn p016_y_to_depth_mm(y_data: &[u8], depth_shift: u32) -> (r: Vec<u16>)
    requires
        depth_shift < 32,
    ensures
        r@ == depths_of(y_data@, depth_shift as nat),
{
    av1_decoder::p010_y_to_depth_mm(y_data, depth_shift)
}

} // verus!
