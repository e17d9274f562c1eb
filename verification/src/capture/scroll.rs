//! Scrolling capture: frames grabbed one after another while the user scrolls
//! are stitched into one tall image.
//!
//! The bottom strip of the stitched image is searched for in the new frame;
//! when it is found, only the rows of the frame below the match are appended.
//! When the content changed too much, the frame is stacked whole below.
use vstd::prelude::*;
use crate::raster::{
    buffer_fits, height_of, in_bounds, lemma_put_pixel, pixel_at, width_of, zero_pixel, Raster,
    Rgba8,
};

verus! {

/// Height in pixels of the strip that is matched between two frames.
pub const TEMPLATE_H: u32 = 40;

/// Only every `COL_STEP`-th column is sampled when matching.
pub const COL_STEP: u32 = 4;

/// A match is accepted when the mean channel error is at most this value.
pub const ACCEPT_AVG_ERR: u64 = 26;

/// How a new frame is joined to the stitched image.
#[derive(Clone, Copy, Debug, PartialEq, Eq, Structural)]
pub enum StitchPlan {
    /// The whole frame goes below the image.
    Stack,
    /// The frame adds nothing: the image stays as it is.
    Keep,
    /// The rows of the frame from this row on go below the image.
    Append(u32),
}

/// Absolute difference of two channel values.
pub open spec fn channel_diff(a: u8, b: u8) -> int {
    if a >= b {
        a - b
    } else {
        b - a
    }
}

/// Error between two pixels: the summed absolute difference of red, green and blue.
pub open spec fn pixel_error(p: Rgba8, q: Rgba8) -> int {
    channel_diff(p.0, q.0) + channel_diff(p.1, q.1) + channel_diff(p.2, q.2)
}

/// Error of row `cy` of `c` against row `fy` of `f`, over the sampled columns from `x` on.
pub open spec fn row_error(c: Raster, f: Raster, cy: int, fy: int, x: int) -> int
    decreases width_of(c) + COL_STEP - x,
{
    if x >= width_of(c) {
        0
    } else {
        pixel_error(pixel_at(c, x, cy), pixel_at(f, x, fy)) + row_error(
            c,
            f,
            cy,
            fy,
            x + COL_STEP,
        )
    }
}

/// Error of the strip rows from `row` on: bottom rows of `c` against rows of `f` from `m` on.
pub open spec fn strip_rows(c: Raster, f: Raster, m: int, row: int) -> int
    decreases TEMPLATE_H - row,
{
    if row >= TEMPLATE_H {
        0
    } else {
        row_error(c, f, height_of(c) - TEMPLATE_H + row, m + row, 0) + strip_rows(
            c,
            f,
            m,
            row + 1,
        )
    }
}

/// Summed channel error between the bottom strip of `c` and the rows of `f` starting at `m`.
pub open spec fn strip_sum(c: Raster, f: Raster, m: int) -> int {
    strip_rows(c, f, m, 0)
}

/// Number of sampled columns of a row of width `w`.
pub open spec fn sampled_columns(w: int) -> int {
    (w + 3) / 4
}

/// Number of channel values that enter one strip comparison.
pub open spec fn sampled_count(w: int) -> int {
    3 * TEMPLATE_H * sampled_columns(w)
}

/// The first offset in `0..=k` whose strip error is smallest.
pub open spec fn best_upto(c: Raster, f: Raster, k: nat) -> nat
    decreases k,
{
    if k == 0 {
        0
    } else {
        let b = best_upto(c, f, (k - 1) as nat);
        if strip_sum(c, f, k as int) < strip_sum(c, f, b as int) {
            k
        } else {
            b
        }
    }
}

/// Whether the strip search runs: same widths, a frame taller than the strip,
/// and an image at least as tall as the strip.
pub open spec fn searchable(c: Raster, f: Raster) -> bool {
    &&& width_of(c) == width_of(f)
    &&& height_of(f) > TEMPLATE_H
    &&& height_of(c) >= TEMPLATE_H
}

/// The offset in the frame where the bottom strip of the image matches best.
pub open spec fn best_offset(c: Raster, f: Raster) -> nat {
    best_upto(c, f, (height_of(f) - TEMPLATE_H) as nat)
}

/// The best match is good enough: its mean channel error is at most `ACCEPT_AVG_ERR`.
pub open spec fn match_accepted(c: Raster, f: Raster) -> bool {
    &&& width_of(c) > 0
    &&& strip_sum(c, f, best_offset(c, f) as int) <= ACCEPT_AVG_ERR * sampled_count(
        width_of(c) as int,
    )
}

/// How `f` is joined to `c`.
pub open spec fn plan_of(c: Raster, f: Raster) -> StitchPlan {
    if !searchable(c, f) || !match_accepted(c, f) {
        StitchPlan::Stack
    } else if best_offset(c, f) + TEMPLATE_H >= height_of(f) {
        StitchPlan::Keep
    } else {
        StitchPlan::Append((best_offset(c, f) + TEMPLATE_H) as u32)
    }
}

/// The pixel of `c` stacked over `f` at `(x, y)`; uncovered pixels are zero.
pub open spec fn stacked_pixel(c: Raster, f: Raster, x: int, y: int) -> Rgba8 {
    if y < height_of(c) {
        if x < width_of(c) {
            pixel_at(c, x, y)
        } else {
            zero_pixel()
        }
    } else {
        if x < width_of(f) {
            pixel_at(f, x, y - height_of(c))
        } else {
            zero_pixel()
        }
    }
}

/// `out` is `c` with the whole of `f` below it, as wide as the wider of the two.
pub open spec fn is_stacked(out: Raster, c: Raster, f: Raster) -> bool {
    &&& width_of(out) == if width_of(c) >= width_of(f) {
        width_of(c)
    } else {
        width_of(f)
    }
    &&& height_of(out) == height_of(c) + height_of(f)
    &&& forall|x: int, y: int|
        in_bounds(width_of(out), height_of(out), x, y) ==> #[trigger] pixel_at(out, x, y)
            == stacked_pixel(c, f, x, y)
}

/// The pixel of `c` followed by the rows of `f` from `start` on, at `(x, y)`.
pub open spec fn appended_pixel(c: Raster, f: Raster, start: int, x: int, y: int) -> Rgba8 {
    if y < height_of(c) {
        pixel_at(c, x, y)
    } else {
        pixel_at(f, x, start + y - height_of(c))
    }
}

/// `out` is `c` with the rows of `f` from `start` on below it.
pub open spec fn is_appended(out: Raster, c: Raster, f: Raster, start: int) -> bool {
    &&& width_of(out) == width_of(c)
    &&& height_of(out) == height_of(c) + height_of(f) - start
    &&& forall|x: int, y: int|
        in_bounds(width_of(out), height_of(out), x, y) ==> #[trigger] pixel_at(out, x, y)
            == appended_pixel(c, f, start, x, y)
}

/// `out` is what joining `f` to `c` gives.
pub open spec fn is_stitched(out: Raster, c: Raster, f: Raster) -> bool {
    match plan_of(c, f) {
        StitchPlan::Stack => is_stacked(out, c, f),
        StitchPlan::Keep => out == c,
        StitchPlan::Append(start) => is_appended(out, c, f, start as int),
    }
}

/// The strip search counts its sampled columns in a `u32` without overflowing.
pub open spec fn strips_fit(c: Raster, f: Raster) -> bool {
    searchable(c, f) ==> width_of(c) <= u32::MAX - 3
}

/// Joining `f` to `c` runs without overflow: the strip search, and the
/// output buffer the plan asks for.
pub open spec fn can_stitch(c: Raster, f: Raster) -> bool {
    &&& strips_fit(c, f)
    &&& match plan_of(c, f) {
        StitchPlan::Stack => {
            &&& height_of(c) + height_of(f) <= u32::MAX
            &&& buffer_fits(
                if width_of(c) >= width_of(f) {
                    width_of(c)
                } else {
                    width_of(f)
                },
                (height_of(c) + height_of(f)) as u32,
            )
        },
        StitchPlan::Keep => true,
        StitchPlan::Append(start) => {
            &&& height_of(c) + height_of(f) - start <= u32::MAX
            &&& buffer_fits(width_of(c), (height_of(c) + height_of(f) - start) as u32)
        },
    }
}

/// The best offset found among `0..=k` is one of them.
pub proof fn lemma_best_upto_in_range(c: Raster, f: Raster, k: nat)
    ensures
        best_upto(c, f, k) <= k,
    decreases k,
{
    if k > 0 {
        lemma_best_upto_in_range(c, f, (k - 1) as nat);
    }
}

/// Summed error of one sampled pixel, at most three full channel swings.
proof fn lemma_pixel_error_bound(p: Rgba8, q: Rgba8)
    ensures
        0 <= pixel_error(p, q) <= 765,
{
}

proof fn lemma_row_error_bound(c: Raster, f: Raster, cy: int, fy: int, x: int)
    requires
        0 <= x <= width_of(c) + 3,
        x % 4 == 0,
    ensures
        0 <= row_error(c, f, cy, fy, x),
        row_error(c, f, cy, fy, x) <= 765 * (sampled_columns(width_of(c) as int) - x / 4),
        x >= width_of(c) ==> row_error(c, f, cy, fy, x) == 0,
    decreases width_of(c) + 4 - x,
{
    if x < width_of(c) {
        lemma_pixel_error_bound(pixel_at(c, x, cy), pixel_at(f, x, fy));
        lemma_row_error_bound(c, f, cy, fy, x + 4);
    }
}

/// Summed channel error of the strip at offset `m`, and the number of channel values summed.
/// A frame row is compared against an image row over the columns `0, 4, 8, ...`.
fn strip_error(canvas: &Raster, frame: &Raster, m: u32, cw: u32) -> (res: (u64, u64))
    requires
        cw == width_of(*canvas),
        cw == width_of(*frame),
        cw <= u32::MAX - 3,
        height_of(*canvas) >= TEMPLATE_H,
        m + TEMPLATE_H <= height_of(*frame),
    ensures
        res.0 == strip_sum(*canvas, *frame, m as int),
        res.1 == sampled_count(cw as int),
        res.0 <= 765 * TEMPLATE_H * sampled_columns(cw as int),
{
    let ch = canvas.height();
    let ghost ncols = sampled_columns(cw as int);
    let mut sum: u64 = 0;
    let mut count: u64 = 0;
    let mut row: u32 = 0;
    while row < TEMPLATE_H
        invariant
            ch == height_of(*canvas),
            ch >= TEMPLATE_H,
            cw == width_of(*canvas),
            cw == width_of(*frame),
            cw <= u32::MAX - 3,
            m + TEMPLATE_H <= height_of(*frame),
            ncols == sampled_columns(cw as int),
            0 <= ncols <= 0x4000_0000,
            row <= TEMPLATE_H,
            sum + strip_rows(*canvas, *frame, m as int, row as int) == strip_sum(
                *canvas,
                *frame,
                m as int,
            ),
            sum <= 765 * (row * ncols),
            count == 3 * (row * ncols),
        decreases TEMPLATE_H - row,
    {
        let cy = ch - TEMPLATE_H + row;
        let fy = m + row;
        let ghost row_total = row_error(*canvas, *frame, cy as int, fy as int, 0);
        let mut x: u32 = 0;
        let ghost mut k: int = 0;
        proof {
            lemma_row_error_bound(*canvas, *frame, cy as int, fy as int, 0);
            assert(row * ncols <= 40 * 0x4000_0000) by (nonlinear_arith)
                requires
                    row <= 40,
                    ncols <= 0x4000_0000,
            ;
        }
        while x < cw
            invariant
                cw == width_of(*canvas),
                cw == width_of(*frame),
                cw <= u32::MAX - 3,
                ncols == sampled_columns(cw as int),
                0 <= ncols <= 0x4000_0000,
                row < TEMPLATE_H,
                cy == height_of(*canvas) - TEMPLATE_H + row,
                cy < height_of(*canvas),
                fy == m + row,
                fy < height_of(*frame),
                x == 4 * k,
                0 <= k,
                4 * k <= cw + 3,
                row * ncols <= 40 * 0x4000_0000,
                row_total == row_error(*canvas, *frame, cy as int, fy as int, 0),
                sum + row_error(*canvas, *frame, cy as int, fy as int, x as int) + strip_rows(
                    *canvas,
                    *frame,
                    m as int,
                    row + 1,
                ) == strip_sum(*canvas, *frame, m as int),
                sum <= 765 * (row * ncols + k),
                count == 3 * (row * ncols + k),
                k <= ncols,
            decreases cw + 4 - x,
        {
            let cp = canvas.get_pixel(x, cy);
            let fp = frame.get_pixel(x, fy);
            let d0: u8 = if cp.0 >= fp.0 { cp.0 - fp.0 } else { fp.0 - cp.0 };
            let d1: u8 = if cp.1 >= fp.1 { cp.1 - fp.1 } else { fp.1 - cp.1 };
            let d2: u8 = if cp.2 >= fp.2 { cp.2 - fp.2 } else { fp.2 - cp.2 };
            proof {
                lemma_pixel_error_bound(cp, fp);
                lemma_row_error_bound(*canvas, *frame, cy as int, fy as int, x + 4);
            }
            sum = sum + d0 as u64;
            sum = sum + d1 as u64;
            sum = sum + d2 as u64;
            count = count + 3;
            x = x + COL_STEP;
            proof {
                k = k + 1;
            }
        }
        proof {
            lemma_row_error_bound(*canvas, *frame, cy as int, fy as int, x as int);
            assert(k == ncols);
            assert(row * ncols + ncols == (row + 1) * ncols) by (nonlinear_arith);
        }
        row = row + 1;
    }
    proof {
        assert(765 * (40 * ncols) == 765 * 40 * ncols) by (nonlinear_arith);
        assert(3 * (40 * ncols) == 3 * 40 * ncols) by (nonlinear_arith);
    }
    (sum, count)
}

/// Decides how `frame` is joined to `canvas`: the first offset with the smallest strip
/// error is taken when its mean error is small enough.
pub fn stitch_plan(canvas: &Raster, frame: &Raster) -> (p: StitchPlan)
    requires
        strips_fit(*canvas, *frame),
    ensures
        p == plan_of(*canvas, *frame),
{
    let cw = canvas.width();
    let ch = canvas.height();
    let fw = frame.width();
    let fh = frame.height();
    if cw != fw || fh <= TEMPLATE_H || ch < TEMPLATE_H {
        return StitchPlan::Stack;
    }
    let max_m = fh - TEMPLATE_H;
    let (first, count) = strip_error(canvas, frame, 0, cw);
    let mut best_m: u32 = 0;
    let mut best_sum: u64 = first;
    let mut m: u32 = 1;
    while m <= max_m
        invariant
            searchable(*canvas, *frame),
            cw == width_of(*canvas),
            cw == width_of(*frame),
            cw <= u32::MAX - 3,
            ch == height_of(*canvas),
            fh == height_of(*frame),
            max_m == fh - TEMPLATE_H,
            1 <= m <= max_m + 1,
            best_m == best_upto(*canvas, *frame, (m - 1) as nat),
            best_m < m,
            best_sum == strip_sum(*canvas, *frame, best_m as int),
        decreases max_m + 1 - m,
    {
        let (s, _) = strip_error(canvas, frame, m, cw);
        if s < best_sum {
            best_sum = s;
            best_m = m;
        }
        proof {
            lemma_best_upto_in_range(*canvas, *frame, m as nat);
        }
        m = m + 1;
    }
    proof {
        assert(sampled_columns(cw as int) <= 0x4000_0000);
        let cols = sampled_columns(cw as int);
        assert(3 * 40 * cols <= 120 * 0x4000_0000) by (nonlinear_arith)
            requires
                0 <= cols <= 0x4000_0000,
        ;
    }
    if count > 0 && best_sum <= ACCEPT_AVG_ERR * count {
        let new_start = best_m + TEMPLATE_H;
        if new_start >= fh {
            StitchPlan::Keep
        } else {
            StitchPlan::Append(new_start)
        }
    } else {
        StitchPlan::Stack
    }
}

/// Appends the rows of `frame` from `start_row` on below `canvas`, taking as many
/// columns of each as the canvas has.
fn append_rows(canvas: Raster, frame: &Raster, start_row: u32) -> (out: Raster)
    requires
        width_of(canvas) <= width_of(*frame),
        start_row <= height_of(*frame),
        height_of(canvas) + height_of(*frame) - start_row <= u32::MAX,
        buffer_fits(
            width_of(canvas),
            (height_of(canvas) + height_of(*frame) - start_row) as u32,
        ),
    ensures
        is_appended(out, canvas, *frame, start_row as int),
{
    let cw = canvas.width();
    let ch = canvas.height();
    let add = frame.height() - start_row;
    let mut out = Raster::blank(cw, ch + add);
    let mut y: u32 = 0;
    while y < ch
        invariant
            cw == width_of(canvas),
            ch == height_of(canvas),
            width_of(out) == cw,
            height_of(out) == ch + add,
            y <= ch,
            forall|xx: int, yy: int|
                in_bounds(cw, (ch + add) as u32, xx, yy) ==> #[trigger] pixel_at(out, xx, yy) == if yy
                    < y {
                    pixel_at(canvas, xx, yy)
                } else {
                    zero_pixel()
                },
        decreases ch - y,
    {
        let mut x: u32 = 0;
        while x < cw
            invariant
                cw == width_of(canvas),
                ch == height_of(canvas),
                width_of(out) == cw,
                height_of(out) == ch + add,
                y < ch,
                x <= cw,
                forall|xx: int, yy: int|
                    in_bounds(cw, (ch + add) as u32, xx, yy) ==> #[trigger] pixel_at(out, xx, yy)
                        == if yy < y || (yy == y && xx < x) {
                        pixel_at(canvas, xx, yy)
                    } else {
                        zero_pixel()
                    },
            decreases cw - x,
        {
            let p = canvas.get_pixel(x, y);
            let ghost before = out;
            out.put_pixel(x, y, p);
            proof {
                lemma_put_pixel(before, out, x, y, p);
            }
            x = x + 1;
        }
        y = y + 1;
    }
    let mut r: u32 = 0;
    while r < add
        invariant
            cw == width_of(canvas),
            cw <= width_of(*frame),
            ch == height_of(canvas),
            add == height_of(*frame) - start_row,
            width_of(out) == cw,
            height_of(out) == ch + add,
            r <= add,
            forall|xx: int, yy: int|
                in_bounds(cw, (ch + add) as u32, xx, yy) ==> #[trigger] pixel_at(out, xx, yy) == if yy
                    < ch + r {
                    appended_pixel(canvas, *frame, start_row as int, xx, yy)
                } else {
                    zero_pixel()
                },
        decreases add - r,
    {
        let mut x: u32 = 0;
        while x < cw
            invariant
                cw == width_of(canvas),
                cw <= width_of(*frame),
                ch == height_of(canvas),
                add == height_of(*frame) - start_row,
                width_of(out) == cw,
                height_of(out) == ch + add,
                r < add,
                x <= cw,
                forall|xx: int, yy: int|
                    in_bounds(cw, (ch + add) as u32, xx, yy) ==> #[trigger] pixel_at(out, xx, yy)
                        == if yy < ch + r || (yy == ch + r && xx < x) {
                        appended_pixel(canvas, *frame, start_row as int, xx, yy)
                    } else {
                        zero_pixel()
                    },
            decreases cw - x,
        {
            let p = frame.get_pixel(x, start_row + r);
            let ghost before = out;
            out.put_pixel(x, ch + r, p);
            proof {
                lemma_put_pixel(before, out, x, (ch + r) as u32, p);
            }
            x = x + 1;
        }
        r = r + 1;
    }
    out
}

/// Puts the whole of `frame` below `canvas` (the fallback when no match is found).
fn stack(canvas: Raster, frame: &Raster) -> (out: Raster)
    requires
        height_of(canvas) + height_of(*frame) <= u32::MAX,
        buffer_fits(
            if width_of(canvas) >= width_of(*frame) {
                width_of(canvas)
            } else {
                width_of(*frame)
            },
            (height_of(canvas) + height_of(*frame)) as u32,
        ),
    ensures
        is_stacked(out, canvas, *frame),
{
    let cw = canvas.width();
    let ch = canvas.height();
    let fw = frame.width();
    let fh = frame.height();
    let out_w = if cw >= fw { cw } else { fw };
    let mut out = Raster::blank(out_w, ch + fh);
    let mut y: u32 = 0;
    while y < ch
        invariant
            cw == width_of(canvas),
            ch == height_of(canvas),
            fw == width_of(*frame),
            fh == height_of(*frame),
            out_w == if cw >= fw { cw } else { fw },
            width_of(out) == out_w,
            height_of(out) == ch + fh,
            y <= ch,
            forall|xx: int, yy: int|
                in_bounds(out_w, (ch + fh) as u32, xx, yy) ==> #[trigger] pixel_at(out, xx, yy) == if yy
                    < y && xx < cw {
                    pixel_at(canvas, xx, yy)
                } else {
                    zero_pixel()
                },
        decreases ch - y,
    {
        let mut x: u32 = 0;
        while x < cw
            invariant
                cw == width_of(canvas),
                ch == height_of(canvas),
                out_w == if cw >= fw { cw } else { fw },
                width_of(out) == out_w,
                height_of(out) == ch + fh,
                y < ch,
                x <= cw,
                forall|xx: int, yy: int|
                    in_bounds(out_w, (ch + fh) as u32, xx, yy) ==> #[trigger] pixel_at(out, xx, yy)
                        == if (yy < y && xx < cw) || (yy == y && xx < x) {
                        pixel_at(canvas, xx, yy)
                    } else {
                        zero_pixel()
                    },
            decreases cw - x,
        {
            let p = canvas.get_pixel(x, y);
            let ghost before = out;
            out.put_pixel(x, y, p);
            proof {
                lemma_put_pixel(before, out, x, y, p);
            }
            x = x + 1;
        }
        y = y + 1;
    }
    let mut y: u32 = 0;
    while y < fh
        invariant
            cw == width_of(canvas),
            ch == height_of(canvas),
            fw == width_of(*frame),
            fh == height_of(*frame),
            out_w == if cw >= fw { cw } else { fw },
            width_of(out) == out_w,
            height_of(out) == ch + fh,
            y <= fh,
            forall|xx: int, yy: int|
                in_bounds(out_w, (ch + fh) as u32, xx, yy) ==> #[trigger] pixel_at(out, xx, yy) == if yy
                    < ch + y {
                    stacked_pixel(canvas, *frame, xx, yy)
                } else {
                    zero_pixel()
                },
        decreases fh - y,
    {
        let mut x: u32 = 0;
        while x < fw
            invariant
                cw == width_of(canvas),
                ch == height_of(canvas),
                fw == width_of(*frame),
                fh == height_of(*frame),
                out_w == if cw >= fw { cw } else { fw },
                width_of(out) == out_w,
                height_of(out) == ch + fh,
                y < fh,
                x <= fw,
                forall|xx: int, yy: int|
                    in_bounds(out_w, (ch + fh) as u32, xx, yy) ==> #[trigger] pixel_at(out, xx, yy)
                        == if yy < ch + y || (yy == ch + y && (xx < x || xx >= fw)) {
                        stacked_pixel(canvas, *frame, xx, yy)
                    } else {
                        zero_pixel()
                    },
            decreases fw - x,
        {
            let p = frame.get_pixel(x, y);
            let ghost before = out;
            out.put_pixel(x, ch + y, p);
            proof {
                lemma_put_pixel(before, out, x, (ch + y) as u32, p);
            }
            x = x + 1;
        }
        y = y + 1;
    }
    out
}

/// Joins `frame` to the bottom of `canvas`.
pub fn stitch(canvas: Raster, frame: Raster) -> (out: Raster)
    requires
        can_stitch(canvas, frame),
    ensures
        is_stitched(out, canvas, frame),
{
    match stitch_plan(&canvas, &frame) {
        StitchPlan::Stack => stack(canvas, &frame),
        StitchPlan::Keep => canvas,
        StitchPlan::Append(start) => {
            proof {
                lemma_best_upto_in_range(
                    canvas,
                    frame,
                    (height_of(frame) - TEMPLATE_H) as nat,
                );
            }
            append_rows(canvas, &frame, start)
        },
    }
}

/// Joins frames grabbed while scrolling into one tall image.
pub struct ScrollStitcher {
    canvas: Option<Raster>,
    frames: u32,
}

impl ScrollStitcher {
    /// The image stitched so far; `None` before the first frame.
    pub closed spec fn stitched(&self) -> Option<Raster> {
        self.canvas
    }

    /// How many frames were pushed.
    pub closed spec fn pushed(&self) -> u32 {
        self.frames
    }

    /// Whether `frame` can be pushed next: the frame counter does not overflow and,
    /// from the second frame on, the stitching does not either.
    pub open spec fn accepts(&self, frame: Raster) -> bool {
        &&& self.pushed() < u32::MAX
        &&& match self.stitched() {
            None => true,
            Some(c) => can_stitch(c, frame),
        }
    }

    pub fn new() -> (s: Self)
        ensures
            s.stitched() is None,
            s.pushed() == 0,
    {
        ScrollStitcher { canvas: None, frames: 0 }
    }

    pub fn frames(&self) -> (n: u32)
        ensures
            n == self.pushed(),
    {
        self.frames
    }

    /// Height of the stitched image, 0 before the first frame.
    pub fn height(&self) -> (h: u32)
        ensures
            h == match self.stitched() {
                None => 0,
                Some(c) => height_of(c),
            },
    {
        match &self.canvas {
            None => 0,
            Some(c) => c.height(),
        }
    }

    /// Adds a frame: the first becomes the image, each later one is stitched below it.
    /// Rows already stitched are never altered: the image only grows, and every pixel
    /// it had keeps its place and its color.
    pub fn push(&mut self, frame: Raster)
        requires
            old(self).accepts(frame),
        ensures
            final(self).pushed() == old(self).pushed() + 1,
            match old(self).stitched() {
                None => final(self).stitched() == Some(frame),
                Some(c) => final(self).stitched() matches Some(out) && is_stitched(out, c, frame),
            },
            old(self).stitched() matches Some(c) ==> final(self).stitched() matches Some(out) && {
                &&& height_of(out) >= height_of(c)
                &&& width_of(out) >= width_of(c)
                &&& forall|x: int, y: int|
                    in_bounds(width_of(c), height_of(c), x, y) ==> #[trigger] pixel_at(out, x, y)
                        == pixel_at(c, x, y)
            },
    {
        self.frames = self.frames + 1;
        match self.canvas.take() {
            None => self.canvas = Some(frame),
            Some(canvas) => {
                let ghost c = canvas;
                let out = stitch(canvas, frame);
                proof {
                    lemma_stitch_keeps_canvas(out, c, frame);
                }
                self.canvas = Some(out);
            },
        }
    }

    /// The stitched image; `None` when no frame was pushed.
    pub fn result(self) -> (r: Option<Raster>)
        ensures
            r == self.stitched(),
    {
        self.canvas
    }
}

/// Stitching keeps the image: its rows stay on top, pixel for pixel, and the
/// result is at least as tall.
pub proof fn lemma_stitch_keeps_canvas(out: Raster, c: Raster, f: Raster)
    requires
        is_stitched(out, c, f),
    ensures
        height_of(out) >= height_of(c),
        width_of(out) >= width_of(c),
        forall|x: int, y: int|
            in_bounds(width_of(c), height_of(c), x, y) ==> #[trigger] pixel_at(out, x, y)
                == pixel_at(c, x, y),
{
    lemma_best_upto_in_range(c, f, (height_of(f) - TEMPLATE_H) as nat);
    match plan_of(c, f) {
        StitchPlan::Stack => {
            assert forall|x: int, y: int|
                in_bounds(width_of(c), height_of(c), x, y) implies #[trigger] pixel_at(out, x, y)
                == pixel_at(c, x, y) by {
                assert(in_bounds(width_of(out), height_of(out), x, y));
            }
        },
        StitchPlan::Keep => {},
        StitchPlan::Append(start) => {
            assert forall|x: int, y: int|
                in_bounds(width_of(c), height_of(c), x, y) implies #[trigger] pixel_at(out, x, y)
                == pixel_at(c, x, y) by {
                assert(in_bounds(width_of(out), height_of(out), x, y));
            }
        },
    }
}

/// The offset the search settles on has the smallest strip error of all
/// offsets, and every earlier offset has a strictly larger one.
pub proof fn lemma_best_offset_is_first_minimum(c: Raster, f: Raster, k: nat)
    ensures
        best_upto(c, f, k) <= k,
        forall|m: int|
            0 <= m <= k ==> strip_sum(c, f, best_upto(c, f, k) as int) <= #[trigger] strip_sum(
                c,
                f,
                m,
            ),
        forall|m: int|
            0 <= m < best_upto(c, f, k) ==> #[trigger] strip_sum(c, f, m) > strip_sum(
                c,
                f,
                best_upto(c, f, k) as int,
            ),
    decreases k,
{
    lemma_best_upto_in_range(c, f, k);
    if k > 0 {
        lemma_best_offset_is_first_minimum(c, f, (k - 1) as nat);
    }
}

/// When the best strip match is accepted, the frame's rows below the matched strip
/// are appended: if any frame row lies below the strip, the plan appends from the
/// strip's end, the stitched image grows by exactly the rows below the strip, and
/// those rows are the frame's rows in order; the image is kept as it is only when no
/// frame row lies below the strip.
pub proof fn law_rows_below_the_match_are_appended(c: Raster, f: Raster, out: Raster)
    requires
        searchable(c, f),
        match_accepted(c, f),
        is_stitched(out, c, f),
    ensures
        best_offset(c, f) + TEMPLATE_H < height_of(f) ==> {
            &&& plan_of(c, f) == StitchPlan::Append((best_offset(c, f) + TEMPLATE_H) as u32)
            &&& height_of(out) == height_of(c) + height_of(f) - (best_offset(c, f) + TEMPLATE_H)
            &&& width_of(out) == width_of(c)
            &&& forall|x: int, y: int|
                0 <= x < width_of(c) && height_of(c) <= y < height_of(out) ==> #[trigger] pixel_at(
                    out,
                    x,
                    y,
                ) == pixel_at(f, x, best_offset(c, f) + TEMPLATE_H + (y - height_of(c)))
        },
        plan_of(c, f) == StitchPlan::Keep <==> best_offset(c, f) + TEMPLATE_H >= height_of(f),
        plan_of(c, f) == StitchPlan::Keep ==> out == c,
{
    lemma_best_upto_in_range(c, f, (height_of(f) - TEMPLATE_H) as nat);
    if best_offset(c, f) + TEMPLATE_H < height_of(f) {
        let start = best_offset(c, f) + TEMPLATE_H;
        assert forall|x: int, y: int|
            0 <= x < width_of(c) && height_of(c) <= y < height_of(out) implies #[trigger] pixel_at(
            out,
            x,
            y,
        ) == pixel_at(f, x, start + (y - height_of(c))) by {
            assert(in_bounds(width_of(out), height_of(out), x, y));
        }
    }
}

} // verus!
