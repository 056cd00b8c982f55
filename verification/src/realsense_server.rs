//! Depth camera server: depth as 10-bit grey.

pub mod feed;

use crate::av1_decoder::{depth_of, depths_of};
use crate::endian::{le16, le16_at, le16_round_trip, put_le16};
use vstd::arithmetic::div_mod::lemma_fundamental_div_mod_converse;
use vstd::arithmetic::power2::pow2;
use vstd::prelude::*;
use vstd::slice::{slice_subrange, slice_to_vec};

verus! {

/// Bit shift for depth encoding: gray10 = depth_mm >> SHIFT, clamped to 1023.
pub const DEPTH_SHIFT: u32 = 0;

/// The grey value of a depth; 0 stands for no measurement.
pub open spec fn gray(depth_mm: int) -> int {
    if depth_mm > 1023 {
        1023
    } else {
        depth_mm
    }
}

/// Whether there is a measurement for pixel `i`.
pub open spec fn measured(depth_mm: Seq<u16>, i: int) -> bool {
    0 <= i < depth_mm.len() && depth_mm[i] > 0
}

/// The grey values of the first `n` depths, 0 where there is none.
pub open spec fn gray_values(depth_mm: Seq<u16>, n: nat) -> Seq<u16> {
    Seq::new(
        n,
        |i: int|
            if i < depth_mm.len() {
                gray(depth_mm[i] as int) as u16
            } else {
                0
            },
    )
}

/// The last place up to and with `i` whose value is not 0, -1 if there is none.
pub open spec fn place_before(line: Seq<u16>, i: int) -> int
    decreases i + 1,
{
    if i < 0 {
        -1
    } else if line[i] != 0 {
        i
    } else {
        place_before(line, i - 1)
    }
}

/// The first place from `i` on whose value is not 0, the line's length if there is none.
pub open spec fn place_after(line: Seq<u16>, i: int) -> int
    decreases line.len() - i,
{
    if i >= line.len() {
        line.len() as int
    } else if line[i] != 0 {
        i
    } else {
        place_after(line, i + 1)
    }
}

/// The place nearest to `i` whose value is not 0, -1 if there is none. Of two that are equally
/// near, the first one counts.
pub open spec fn nearest_place(line: Seq<u16>, i: int) -> int {
    let before = place_before(line, i);
    let after = place_after(line, i);
    if after >= line.len() || (before >= 0 && i - before <= after - i) {
        before
    } else {
        after
    }
}

/// What place `i` of a line holds once the gaps are filled: the valid value nearest to it, 0 if
/// there is none.
pub open spec fn fill(line: Seq<u16>, i: int) -> u16 {
    if nearest_place(line, i) < 0 {
        0
    } else {
        line[nearest_place(line, i)]
    }
}

/// A line with its gaps filled.
pub open spec fn filled(line: Seq<u16>) -> Seq<u16> {
    Seq::new(line.len(), |i: int| fill(line, i))
}

/// Row `y` of an image with rows of `w` pixels.
pub open spec fn row(g: Seq<u16>, w: int, y: int) -> Seq<u16> {
    g.subrange(y * w, y * w + w)
}

/// Column `x` of an image with `h` rows of `w` pixels.
pub open spec fn column(g: Seq<u16>, w: int, h: nat, x: int) -> Seq<u16> {
    Seq::new(h, |y: int| g[y * w + x])
}

/// An image with the gaps in its rows filled.
pub open spec fn rows_filled(g: Seq<u16>, w: int, h: nat) -> Seq<u16> {
    Seq::new((w * h) as nat, |i: int| fill(row(g, w, i / w), i % w))
}

/// An image with the gaps in its columns filled.
pub open spec fn columns_filled(g: Seq<u16>, w: int, h: nat) -> Seq<u16> {
    Seq::new((w * h) as nat, |i: int| fill(column(g, w, h, i % w), i / w))
}

/// The grey image of depths: gaps are filled along the rows, then along the columns.
pub open spec fn depth_image(depth_mm: Seq<u16>, w: int, h: nat) -> Seq<u16> {
    columns_filled(rows_filled(gray_values(depth_mm, (w * h) as nat), w, h), w, h)
}

/// A luma plane: each value moved 6 bits to the left, in 16 bits, little-endian.
pub open spec fn luma_plane(image: Seq<u16>) -> Seq<u8>
    decreases image.len(),
{
    if image.len() == 0 {
        Seq::empty()
    } else {
        luma_plane(image.drop_last()) + le16(image.last() * 64)
    }
}

/// `n` chroma samples without color.
pub open spec fn neutral_chroma(n: nat) -> Seq<u8>
    decreases n,
{
    if n == 0 {
        Seq::empty()
    } else {
        neutral_chroma((n - 1) as nat) + seq![0x00u8, 0x80u8]
    }
}

/// Depths as a P010 picture: the grey image, and chroma at half its height.
pub open spec fn p010(depth_mm: Seq<u16>, w: int, h: nat) -> Seq<u8> {
    luma_plane(depth_image(depth_mm, w, h)) + neutral_chroma((w * (h / 2)) as nat)
}

proof fn before_is_last(line: Seq<u16>, i: int)
    requires
        i < line.len(),
    ensures
        -1 <= place_before(line, i),
        i >= 0 ==> place_before(line, i) <= i,
        place_before(line, i) >= 0 ==> line[place_before(line, i)] != 0,
        forall|k: int| 0 <= k <= i && k > place_before(line, i) ==> line[k] == 0,
    decreases i + 1,
{
    if i >= 0 && line[i] == 0 {
        before_is_last(line, i - 1);
    }
}

proof fn after_is_first(line: Seq<u16>, i: int)
    requires
        0 <= i <= line.len(),
    ensures
        i <= place_after(line, i) <= line.len(),
        place_after(line, i) < line.len() ==> line[place_after(line, i)] != 0,
        forall|k: int| i <= k < place_after(line, i) ==> line[k] == 0,
    decreases line.len() - i,
{
    if i < line.len() && line[i] == 0 {
        after_is_first(line, i + 1);
    }
}

/// How far apart two places are.
pub open spec fn distance(i: int, k: int) -> int {
    if i <= k {
        k - i
    } else {
        i - k
    }
}

/// A gap takes the value of a valid place, and no valid place `k` is nearer to the gap than that
/// one.
pub proof fn nearest_fills_gap(line: Seq<u16>, i: int, k: int)
    requires
        0 <= i < line.len(),
        0 <= k < line.len(),
        line[k] != 0,
    ensures
        0 <= nearest_place(line, i) < line.len(),
        line[nearest_place(line, i)] != 0,
        fill(line, i) == line[nearest_place(line, i)],
        distance(i, nearest_place(line, i)) <= distance(i, k),
        distance(i, nearest_place(line, i)) == distance(i, k) ==> nearest_place(line, i) <= k,
        line[i] != 0 ==> fill(line, i) == line[i],
{
    before_is_last(line, i);
    after_is_first(line, i);
}

/// Fills the gaps of a line.
fn fill_line(line: &[u16]) -> (r: Vec<u16>)
    ensures
        r@ == filled(line@),
{
    let n: usize = line.len();
    let mut valid_before: Vec<Option<usize>> = Vec::new();
    let mut before: Option<usize> = None;
    let mut i: usize = 0;
    while i < n
        invariant
            n == line@.len(),
            i <= n,
            place_before(line@, i - 1) == (match before {
                Some(b) => b as int,
                None => -1,
            }),
            valid_before@.len() == i,
            forall|k: int|
                0 <= k < i ==> place_before(line@, k) == (match #[trigger] valid_before@[k] {
                    Some(b) => b as int,
                    None => -1,
                }),
        decreases n - i,
    {
        if line[i] != 0 {
            before = Some(i);
        }
        valid_before.push(before);
        i = i + 1;
    }
    let mut r = slice_to_vec(line);
    let mut after: usize = n;
    while i > 0
        invariant
            n == line@.len() == valid_before@.len() == r@.len(),
            i <= n,
            forall|k: int|
                0 <= k < n ==> place_before(line@, k) == (match #[trigger] valid_before@[k] {
                    Some(b) => b as int,
                    None => -1,
                }),
            after == place_after(line@, i as int),
            forall|k: int| i <= k < n ==> r@[k] == fill(line@, k),
        decreases i,
    {
        i = i - 1;
        if line[i] != 0 {
            after = i;
        }
        proof {
            before_is_last(line@, i as int);
            after_is_first(line@, i as int);
        }
        let value: u16 = match valid_before[i] {
            Some(b) => if after == n || i - b <= after - i {
                line[b]
            } else {
                line[after]
            },
            None => if after == n {
                0
            } else {
                line[after]
            },
        };
        r.set(i, value);
    }
    assert(r@ =~= filled(line@));
    r
}

proof fn row_bounds(w: int, h: int, y: int)
    requires
        0 <= y < h,
        0 <= w,
    ensures
        0 <= y * w,
        y * w + w <= w * h,
        (y + 1) * w == y * w + w,
{
    assert(0 <= y * w && y * w + w <= w * h && (y + 1) * w == y * w + w) by (nonlinear_arith)
        requires
            0 <= y < h,
            0 <= w,
    ;
}

fn fill_rows(g: &Vec<u16>, w: usize, h: usize) -> (r: Vec<u16>)
    requires
        g@.len() == w * h,
    ensures
        r@ == rows_filled(g@, w as int, h as nat),
{
    let mut out: Vec<u16> = Vec::new();
    let mut y: usize = 0;
    let mut start: usize = 0;
    while y < h
        invariant
            y <= h,
            g@.len() == w * h,
            g.len() == g@.len(),
            start == y * w,
            out@ == rows_filled(g@, w as int, h as nat).take(y * w),
        decreases h - y,
    {
        proof {
            row_bounds(w as int, h as int, y as int);
        }
        let line = slice_subrange(g.as_slice(), start, start + w);
        assert(line@ =~= row(g@, w as int, y as int));
        let full = fill_line(line);
        let mut x: usize = 0;
        while x < w
            invariant
                x <= w,
                y < h,
                y * w >= 0,
                y * w + w <= w * h,
                full@ == filled(row(g@, w as int, y as int)),
                full@.len() == w,
                out@ == rows_filled(g@, w as int, h as nat).take(y * w + x),
            decreases w - x,
        {
            proof {
                lemma_fundamental_div_mod_converse(y * w + x, w as int, y as int, x as int);
            }
            out.push(full[x]);
            assert(out@ =~= rows_filled(g@, w as int, h as nat).take(y * w + x + 1));
            x = x + 1;
        }
        y = y + 1;
        start = start + w;
    }
    assert(h * w == w * h) by (nonlinear_arith);
    assert(out@ =~= rows_filled(g@, w as int, h as nat));
    out
}

fn read_column(g: &Vec<u16>, w: usize, h: usize, x: usize) -> (r: Vec<u16>)
    requires
        g@.len() == w * h,
        x < w,
    ensures
        r@ == column(g@, w as int, h as nat, x as int),
{
    let mut r: Vec<u16> = Vec::new();
    let mut y: usize = 0;
    let mut start: usize = 0;
    while y < h
        invariant
            y <= h,
            x < w,
            g@.len() == w * h,
            g.len() == g@.len(),
            start == y * w,
            r@ == column(g@, w as int, h as nat, x as int).take(y as int),
        decreases h - y,
    {
        proof {
            row_bounds(w as int, h as int, y as int);
        }
        r.push(g[start + x]);
        y = y + 1;
        start = start + w;
        assert(r@ =~= column(g@, w as int, h as nat, x as int).take(y as int));
    }
    assert(r@ =~= column(g@, w as int, h as nat, x as int));
    r
}

fn fill_columns(g: &Vec<u16>, w: usize, h: usize) -> (r: Vec<u16>)
    requires
        g@.len() == w * h,
    ensures
        r@ == columns_filled(g@, w as int, h as nat),
{
    let mut columns: Vec<Vec<u16>> = Vec::new();
    let mut x: usize = 0;
    while x < w
        invariant
            x <= w,
            g@.len() == w * h,
            columns@.len() == x,
            forall|k: int|
                0 <= k < x ==> (#[trigger] columns@[k])@ == filled(
                    column(g@, w as int, h as nat, k),
                ),
        decreases w - x,
    {
        let line = read_column(g, w, h, x);
        columns.push(fill_line(&line));
        x = x + 1;
    }
    let mut out: Vec<u16> = Vec::new();
    let mut y: usize = 0;
    while y < h
        invariant
            y <= h,
            columns@.len() == w,
            forall|k: int|
                0 <= k < w ==> (#[trigger] columns@[k])@ == filled(
                    column(g@, w as int, h as nat, k),
                ),
            out@ == columns_filled(g@, w as int, h as nat).take(y * w),
        decreases h - y,
    {
        proof {
            row_bounds(w as int, h as int, y as int);
        }
        let mut x: usize = 0;
        while x < w
            invariant
                x <= w,
                y < h,
                y * w >= 0,
                y * w + w <= w * h,
                columns@.len() == w,
                forall|k: int|
                    0 <= k < w ==> (#[trigger] columns@[k])@ == filled(
                        column(g@, w as int, h as nat, k),
                    ),
                out@ == columns_filled(g@, w as int, h as nat).take(y * w + x),
            decreases w - x,
        {
            proof {
                lemma_fundamental_div_mod_converse(y * w + x, w as int, y as int, x as int);
            }
            assert(columns@[x as int]@ == filled(column(g@, w as int, h as nat, x as int)));
            out.push(columns[x][y]);
            assert(out@ =~= columns_filled(g@, w as int, h as nat).take(y * w + x + 1));
            x = x + 1;
        }
        y = y + 1;
    }
    assert(h * w == w * h) by (nonlinear_arith);
    assert(out@ =~= columns_filled(g@, w as int, h as nat));
    out
}

/// Convert depth u16 mm values to P010 buffer (10-bit grayscale in YUV420).
///
/// Pixels without a measurement take the value of the nearest valid one in their row, then in
/// their column, which helps compression. What the buffer held before is gone.
pub fn depth_to_p010(depth_mm: &[u16], p010_buf: &mut Vec<u8>, width: u32, height: u32)
    requires
        width * height * 4 <= usize::MAX,
    ensures
        final(p010_buf)@ == p010(depth_mm@, width as int, height as nat),
{
    assert(width * height >= 0 && width * (height / 2) <= width * height && width * (height / 2)
        >= 0 && (height as nat / 2) == height / 2) by (nonlinear_arith)
        requires
            width >= 0,
            height >= 0,
    ;
    assert(width <= usize::MAX && height <= usize::MAX);
    let w: usize = width as usize;
    let h: usize = height as usize;
    let pixels: usize = w * h;

    let mut gray: Vec<u16> = Vec::new();
    let mut i: usize = 0;
    while i < pixels
        invariant
            i <= pixels,
            gray@ == gray_values(depth_mm@, pixels as nat).take(i as int),
        decreases pixels - i,
    {
        if i < depth_mm.len() {
            let d: u16 = depth_mm[i];
            gray.push(
                if d > 1023 {
                    1023
                } else {
                    d
                },
            );
        } else {
            gray.push(0);
        }
        i = i + 1;
        assert(gray@ =~= gray_values(depth_mm@, pixels as nat).take(i as int));
    }
    assert(gray@ =~= gray_values(depth_mm@, pixels as nat));

    let gray = fill_rows(&gray, w, h);
    assert(gray@.len() == w * h);
    let gray = fill_columns(&gray, w, h);
    assert(gray@.len() == w * h);

    let mut out: Vec<u8> = Vec::new();
    let ghost image = gray@;
    let mut i: usize = 0;
    assert(out@ =~= luma_plane(image.take(0)));
    while i < pixels
        invariant
            i <= pixels == image.len(),
            image == gray@,
            image == depth_image(depth_mm@, w as int, h as nat),
            out@ == luma_plane(image.take(i as int)),
        decreases pixels - i,
    {
        proof {
            small_image(depth_mm@, w as int, h as nat, i as int);
        }
        let val: u16 = gray[i] * 64;
        assert(image.take(i + 1).drop_last() =~= image.take(i as int));
        put_le16(&mut out, val);
        i = i + 1;
    }
    assert(image.take(i as int) =~= image);

    let chroma: usize = w * (h / 2);
    let ghost luma = out@;
    let mut i: usize = 0;
    assert(out@ =~= luma + neutral_chroma(0));
    while i < chroma
        invariant
            i <= chroma,
            out@ == luma + neutral_chroma(i as nat),
        decreases chroma - i,
    {
        out.push(0x00);
        out.push(0x80);
        i = i + 1;
        assert(out@ =~= luma + neutral_chroma(i as nat));
    }
    *p010_buf = out;
}

proof fn fill_is_from_line(line: Seq<u16>, i: int, max: int)
    requires
        0 <= i < line.len(),
        forall|k: int| 0 <= k < line.len() ==> 0 <= #[trigger] line[k] <= max,
        max >= 0,
    ensures
        fill(line, i) <= max,
{
    before_is_last(line, i);
    after_is_first(line, i);
}

proof fn index_parts(w: int, h: int, i: int)
    requires
        0 <= i < w * h,
        0 <= w,
        0 <= h,
    ensures
        w > 0,
        0 <= i / w < h,
        0 <= i % w < w,
        i == i / w * w + i % w,
{
    assert(w > 0) by (nonlinear_arith)
        requires
            0 <= i < w * h,
            0 <= w,
    ;
    vstd::arithmetic::div_mod::lemma_fundamental_div_mod(i, w);
    assert(w * (i / w) == i / w * w) by (nonlinear_arith);
    assert(0 <= i % w < w) by (nonlinear_arith)
        requires
            w > 0,
    ;
    assert(0 <= i / w < h) by (nonlinear_arith)
        requires
            0 <= i < w * h,
            w > 0,
            i == i / w * w + i % w,
            0 <= i % w < w,
    ;
}

proof fn rows_are_small(g: Seq<u16>, w: int, h: nat, i: int, max: int)
    requires
        g.len() == w * h,
        0 <= w,
        0 <= i < w * h,
        forall|k: int| 0 <= k < g.len() ==> 0 <= #[trigger] g[k] <= max,
        max >= 0,
    ensures
        rows_filled(g, w, h)[i] <= max,
{
    index_parts(w, h as int, i);
    row_bounds(w, h as int, i / w);
    let line = row(g, w, i / w);
    assert forall|k: int| 0 <= k < line.len() implies 0 <= #[trigger] line[k] <= max by {
        assert(line[k] == g[i / w * w + k]);
    }
    fill_is_from_line(line, i % w, max);
}

proof fn columns_are_small(g: Seq<u16>, w: int, h: nat, i: int, max: int)
    requires
        g.len() == w * h,
        0 <= w,
        0 <= i < w * h,
        forall|k: int| 0 <= k < g.len() ==> 0 <= #[trigger] g[k] <= max,
        max >= 0,
    ensures
        columns_filled(g, w, h)[i] <= max,
{
    index_parts(w, h as int, i);
    let line = column(g, w, h, i % w);
    assert forall|k: int| 0 <= k < line.len() implies 0 <= #[trigger] line[k] <= max by {
        row_bounds(w, h as int, k);
        assert(line[k] == g[k * w + i % w]);
    }
    fill_is_from_line(line, i / w, max);
}

proof fn small_image(depth_mm: Seq<u16>, w: int, h: nat, i: int)
    requires
        0 <= w,
        0 <= i < w * h,
    ensures
        depth_image(depth_mm, w, h)[i] <= 1023,
{
    let g = gray_values(depth_mm, (w * h) as nat);
    let f = rows_filled(g, w, h);
    assert forall|k: int| 0 <= k < f.len() implies 0 <= #[trigger] f[k] <= 1023 by {
        rows_are_small(g, w, h, k, 1023);
    }
    columns_are_small(f, w, h, i, 1023);
}

/// A pixel with a measurement keeps its depth, up to 1023 mm.
pub proof fn measured_pixel_keeps_its_depth(depth_mm: Seq<u16>, w: int, h: nat, i: int)
    requires
        0 <= w,
        0 <= i < w * h,
        measured(depth_mm, i),
    ensures
        depth_image(depth_mm, w, h)[i] == gray(depth_mm[i] as int),
        depth_mm[i] <= 1023 ==> depth_image(depth_mm, w, h)[i] == depth_mm[i],
        depth_mm[i] > 1023 ==> depth_image(depth_mm, w, h)[i] == 1023,
{
    let g = gray_values(depth_mm, (w * h) as nat);
    let f = rows_filled(g, w, h);
    index_parts(w, h as int, i);
    row_bounds(w, h as int, i / w);
    assert(row(g, w, i / w)[i % w] == g[i]);
    assert(f[i] == g[i]);
    assert(column(f, w, h, i % w)[i / w] == f[i]);
}

/// Where any pixel has a measurement, no pixel of the image is without a value.
pub proof fn no_gap_remains(depth_mm: Seq<u16>, w: int, h: nat, k: int, i: int)
    requires
        0 <= w,
        0 <= k < w * h,
        measured(depth_mm, k),
        0 <= i < w * h,
    ensures
        depth_image(depth_mm, w, h)[i] > 0,
{
    let g = gray_values(depth_mm, (w * h) as nat);
    let f = rows_filled(g, w, h);
    index_parts(w, h as int, k);
    index_parts(w, h as int, i);
    let y = k / w;
    let x = i % w;
    row_bounds(w, h as int, y);
    assert(row(g, w, y)[k % w] == g[k]);
    nearest_fills_gap(row(g, w, y), x, k % w);
    lemma_fundamental_div_mod_converse(y * w + x, w, y, x);
    assert(f[y * w + x] != 0);
    assert(column(f, w, h, x)[y] == f[y * w + x]);
    nearest_fills_gap(column(f, w, h, x), i / w, y);
}

proof fn row_fill_is_measured(depth_mm: Seq<u16>, w: int, h: nat, i: int) -> (j: int)
    requires
        0 <= w,
        0 <= i < w * h,
        rows_filled(gray_values(depth_mm, (w * h) as nat), w, h)[i] != 0,
    ensures
        measured(depth_mm, j),
        0 <= j < w * h,
        j / w == i / w,
        j == i / w * w + nearest_place(
            row(gray_values(depth_mm, (w * h) as nat), w, i / w),
            i % w,
        ),
        rows_filled(gray_values(depth_mm, (w * h) as nat), w, h)[i] == gray(depth_mm[j] as int),
{
    let g = gray_values(depth_mm, (w * h) as nat);
    let line = row(g, w, i / w);
    index_parts(w, h as int, i);
    row_bounds(w, h as int, i / w);
    let x = nearest_place(line, i % w);
    before_is_last(line, i % w);
    after_is_first(line, i % w);
    let j = i / w * w + x;
    lemma_fundamental_div_mod_converse(j, w, i / w, x);
    assert(line[x] == g[j]);
    j
}

/// A pixel in a row with a measurement `k` takes the depth of a measured pixel `j` of its row, and
/// `k` is not nearer to it than `j`.
pub proof fn gap_takes_nearest_of_its_row(
    depth_mm: Seq<u16>,
    w: int,
    h: nat,
    i: int,
    k: int,
) -> (j: int)
    requires
        0 <= w,
        0 <= i < w * h,
        0 <= k < w * h,
        k / w == i / w,
        measured(depth_mm, k),
    ensures
        measured(depth_mm, j),
        j / w == i / w,
        distance(i, j) <= distance(i, k),
        depth_image(depth_mm, w, h)[i] == gray(depth_mm[j] as int),
{
    let g = gray_values(depth_mm, (w * h) as nat);
    let f = rows_filled(g, w, h);
    index_parts(w, h as int, i);
    index_parts(w, h as int, k);
    row_bounds(w, h as int, i / w);
    let line = row(g, w, i / w);
    assert(line[k % w] == g[k]);
    nearest_fills_gap(line, i % w, k % w);
    assert(f[i] == fill(line, i % w));
    let j = row_fill_is_measured(depth_mm, w, h, i);
    assert(column(f, w, h, i % w)[i / w] == f[i]);
    j
}

/// Where pixel `k` has a measurement, a pixel looks like the one in its column in a row `j` with a
/// measurement, and the row of `k` is not nearer to it than that one.
pub proof fn empty_row_takes_nearest_row(
    depth_mm: Seq<u16>,
    w: int,
    h: nat,
    i: int,
    k: int,
) -> (j: int)
    requires
        0 <= w,
        0 <= i < w * h,
        0 <= k < w * h,
        measured(depth_mm, k),
    ensures
        0 <= j < h,
        exists|m: int| #[trigger] measured(depth_mm, m) && m / w == j,
        distance(i / w, j) <= distance(i / w, k / w),
        depth_image(depth_mm, w, h)[i] == depth_image(depth_mm, w, h)[j * w + i % w],
{
    let g = gray_values(depth_mm, (w * h) as nat);
    let f = rows_filled(g, w, h);
    index_parts(w, h as int, i);
    index_parts(w, h as int, k);
    let x = i % w;
    let y = k / w;
    row_bounds(w, h as int, y);
    assert(row(g, w, y)[k % w] == g[k]);
    nearest_fills_gap(row(g, w, y), x, k % w);
    lemma_fundamental_div_mod_converse(y * w + x, w, y, x);
    let line = column(f, w, h, x);
    assert(line[y] == f[y * w + x]);
    nearest_fills_gap(line, i / w, y);
    let j = nearest_place(line, i / w);
    row_bounds(w, h as int, j);
    lemma_fundamental_div_mod_converse(j * w + x, w, j, x);
    let m = row_fill_is_measured(depth_mm, w, h, j * w + x);
    assert(measured(depth_mm, m) && m / w == j);
    assert(fill(line, j) == line[j]);
    j
}

proof fn luma_len(image: Seq<u16>)
    ensures
        luma_plane(image).len() == 2 * image.len(),
    decreases image.len(),
{
    if image.len() > 0 {
        luma_len(image.drop_last());
    }
}

proof fn luma_sample(image: Seq<u16>, rest: Seq<u8>, i: int)
    requires
        0 <= i < image.len(),
    ensures
        le16_at(luma_plane(image) + rest, 2 * i) == (image[i] * 64) % 0x1_0000,
    decreases image.len(),
{
    let last = le16(image.last() * 64);
    luma_len(image.drop_last());
    luma_len(image);
    let s = luma_plane(image) + rest;
    if i == image.len() - 1 {
        le16_round_trip(image[i] * 64);
        assert(s[2 * i] == last[0]);
        assert(s[2 * i + 1] == last[1]);
    } else {
        luma_sample(image.drop_last(), last + rest, i);
        assert(s =~= luma_plane(image.drop_last()) + (last + rest));
    }
}

proof fn chroma_len(n: nat)
    ensures
        neutral_chroma(n).len() == 2 * n,
    decreases n,
{
    if n > 0 {
        chroma_len((n - 1) as nat);
    }
}

proof fn chroma_sample(n: nat, i: int)
    requires
        0 <= i < n,
    ensures
        le16_at(neutral_chroma(n), 2 * i) == 0x8000,
    decreases n,
{
    chroma_len(n);
    chroma_len((n - 1) as nat);
    let s = neutral_chroma(n);
    if i < n - 1 {
        chroma_sample((n - 1) as nat, i);
        let t = neutral_chroma((n - 1) as nat);
        assert(s[2 * i] == t[2 * i] && s[2 * i + 1] == t[2 * i + 1]);
    }
}

/// A picture has a 16-bit luma sample for each pixel, with the ten bits of the grey value at the
/// top and zeros below, and then, for each two rows, a row of chroma samples in the middle of their
/// range, which is no color.
pub proof fn picture_is_laid_out(depth_mm: Seq<u16>, w: int, h: nat, i: int, k: int)
    requires
        0 <= w,
        0 <= i < w * h,
        0 <= k < w * (h / 2),
    ensures
        ({
            let s = p010(depth_mm, w, h);
            let sample = le16_at(s, 2 * i);
            &&& s.len() == 2 * (w * h) + 2 * (w * (h / 2))
            &&& sample / 64 == depth_image(depth_mm, w, h)[i]
            &&& sample % 64 == 0
            &&& le16_at(s, 2 * (w * h) + 2 * k) == 0x8000
        }),
{
    let image = depth_image(depth_mm, w, h);
    let n = (w * (h / 2)) as nat;
    luma_len(image);
    chroma_len(n);
    small_image(depth_mm, w, h, i);
    luma_sample(image, neutral_chroma(n), i);
    chroma_sample(n, k);
    let s = p010(depth_mm, w, h);
    let t = neutral_chroma(n);
    let at = 2 * (w * h) + 2 * k;
    assert(s[at] == t[2 * k] && s[at + 1] == t[2 * k + 1]);
}

/// Reading the luma of a picture as depth, with the server's shift, gives the grey image back.
pub proof fn depth_reads_back(depth_mm: Seq<u16>, w: int, h: nat)
    requires
        0 <= w,
    ensures
        depths_of(p010(depth_mm, w, h).take(2 * (w * h)), DEPTH_SHIFT as nat) == depth_image(
            depth_mm,
            w,
            h,
        ),
{
    let image = depth_image(depth_mm, w, h);
    assert(w * h >= 0) by (nonlinear_arith)
        requires
            w >= 0,
            h >= 0,
    ;
    luma_len(image);
    let y = luma_plane(image);
    assert(p010(depth_mm, w, h).take(2 * (w * h)) =~= y);
    assert(pow2(0) == 1) by {
        reveal(vstd::arithmetic::power::pow);
    }
    assert forall|i: int| 0 <= i < image.len() implies depths_of(y, 0)[i] == image[i] by {
        small_image(depth_mm, w, h, i);
        luma_sample(image, Seq::empty(), i);
        assert(y + Seq::<u8>::empty() =~= y);
        let sample = le16_at(y, 2 * i);
        assert(sample == image[i] * 64);
        assert(sample / 64 == image[i]);
        assert(depth_of(sample, 0) == image[i]);
    }
    assert(depths_of(y, 0) =~= image);
}

} // verus!
