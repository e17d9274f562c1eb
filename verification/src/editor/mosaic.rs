//! The mosaic annotation: a region of the image is cut into square blocks and
//! every pixel of a block takes the mean color of the block.
use vstd::prelude::*;
use crate::raster::{
    height_of, in_bounds, lemma_put_pixel, pixel_at, raster_size, same_picture, width_of, Raster,
    Rgba8,
};

verus! {

/// Side of a mosaic block, in pixels.
pub const BLOCK: u32 = 12;

/// Start of the block that holds `v`, for blocks laid from `lo` on.
pub open spec fn block_start(lo: int, v: int) -> int {
    lo + BLOCK * ((v - lo) / BLOCK as int)
}

/// End (exclusive) of the block that holds `v`, cut at `hi`.
pub open spec fn block_stop(lo: int, hi: int, v: int) -> int {
    if block_start(lo, v) + BLOCK <= hi {
        block_start(lo, v) + BLOCK
    } else {
        hi
    }
}

/// Channel `c` (0 red, 1 green, 2 blue) of a pixel.
pub open spec fn channel(p: Rgba8, c: int) -> int {
    if c == 0 {
        p.0 as int
    } else if c == 1 {
        p.1 as int
    } else {
        p.2 as int
    }
}

/// Sum of channel `c` over the pixels `x..x1` of row `y`.
pub open spec fn row_sum(img: Raster, y: int, x: int, x1: int, c: int) -> int
    decreases x1 - x,
{
    if x >= x1 {
        0
    } else {
        channel(pixel_at(img, x, y), c) + row_sum(img, y, x + 1, x1, c)
    }
}

/// Sum of channel `c` over the rectangle `x0..x1` by `y..y1`.
pub open spec fn area_sum(img: Raster, x0: int, x1: int, y: int, y1: int, c: int) -> int
    decreases y1 - y,
{
    if y >= y1 {
        0
    } else {
        row_sum(img, y, x0, x1, c) + area_sum(img, x0, x1, y + 1, y1, c)
    }
}

/// Mean of channel `c` over the rectangle, rounded down.
pub open spec fn area_mean(img: Raster, x0: int, x1: int, y0: int, y1: int, c: int) -> int {
    area_sum(img, x0, x1, y0, y1, c) / ((x1 - x0) * (y1 - y0))
}

/// The pixel at `(x, y)` after the mosaic of the region `x0..x1` by `y0..y1`:
/// the mean color of its block, opaque.
pub open spec fn mosaic_pixel(img: Raster, x0: int, x1: int, y0: int, y1: int, x: int, y: int) -> Rgba8 {
    let bx = block_start(x0, x);
    let bx1 = block_stop(x0, x1, x);
    let by = block_start(y0, y);
    let by1 = block_stop(y0, y1, y);
    (
        area_mean(img, bx, bx1, by, by1, 0) as u8,
        area_mean(img, bx, bx1, by, by1, 1) as u8,
        area_mean(img, bx, bx1, by, by1, 2) as u8,
        255u8,
    )
}

/// `out` is `img` with the mosaic applied to `x0..x1` by `y0..y1`; every other pixel stays.
pub open spec fn is_mosaic(out: Raster, img: Raster, x0: int, x1: int, y0: int, y1: int) -> bool {
    &&& raster_size(out) == raster_size(img)
    &&& forall|x: int, y: int|
        in_bounds(width_of(img), height_of(img), x, y) ==> #[trigger] pixel_at(out, x, y) == if x0
            <= x < x1 && y0 <= y < y1 {
            mosaic_pixel(img, x0, x1, y0, y1, x, y)
        } else {
            pixel_at(img, x, y)
        }
}

/// A coordinate cut to `0..=limit`.
pub open spec fn clamp_to(v: u32, limit: u32) -> u32 {
    if v <= limit {
        v
    } else {
        limit
    }
}

/// Stepping block by block over `lo..hi` never passes `u32::MAX`.
pub open spec fn blocks_fit(lo: int, hi: int) -> bool {
    lo < hi ==> block_start(lo, hi - 1) + BLOCK <= u32::MAX
}

/// The region `left..right` by `top..bottom` cut to the image, as `(x0, x1, y0, y1)`.
pub open spec fn mosaic_region(img: Raster, left: u32, top: u32, right: u32, bottom: u32) -> (
    u32,
    u32,
    u32,
    u32,
) {
    (
        clamp_to(left, width_of(img)),
        clamp_to(right, width_of(img)),
        clamp_to(top, height_of(img)),
        clamp_to(bottom, height_of(img)),
    )
}

proof fn lemma_row_sum_agree(a: Raster, b: Raster, y: int, x: int, x1: int, c: int)
    requires
        forall|xx: int| x <= xx < x1 ==> #[trigger] pixel_at(a, xx, y) == pixel_at(b, xx, y),
    ensures
        row_sum(a, y, x, x1, c) == row_sum(b, y, x, x1, c),
    decreases x1 - x,
{
    if x < x1 {
        assert(pixel_at(a, x, y) == pixel_at(b, x, y));
        lemma_row_sum_agree(a, b, y, x + 1, x1, c);
    }
}

/// Two images that agree on a rectangle have the same sums over it.
proof fn lemma_area_sum_agree(a: Raster, b: Raster, x0: int, x1: int, y: int, y1: int, c: int)
    requires
        forall|xx: int, yy: int|
            x0 <= xx < x1 && y <= yy < y1 ==> #[trigger] pixel_at(a, xx, yy) == pixel_at(b, xx, yy),
    ensures
        area_sum(a, x0, x1, y, y1, c) == area_sum(b, x0, x1, y, y1, c),
    decreases y1 - y,
{
    if y < y1 {
        assert forall|xx: int| x0 <= xx < x1 implies #[trigger] pixel_at(a, xx, y) == pixel_at(
            b,
            xx,
            y,
        ) by {}
        lemma_row_sum_agree(a, b, y, x0, x1, c);
        lemma_area_sum_agree(a, b, x0, x1, y + 1, y1, c);
    }
}

/// Mean color of a block of `img`, read pixel by pixel.
fn block_mean(img: &Raster, bx: u32, bx1: u32, by: u32, by1: u32) -> (p: Rgba8)
    requires
        bx < bx1 <= width_of(*img),
        by < by1 <= height_of(*img),
        bx1 - bx <= BLOCK,
        by1 - by <= BLOCK,
    ensures
        p == (
            area_mean(*img, bx as int, bx1 as int, by as int, by1 as int, 0) as u8,
            area_mean(*img, bx as int, bx1 as int, by as int, by1 as int, 1) as u8,
            area_mean(*img, bx as int, bx1 as int, by as int, by1 as int, 2) as u8,
            255u8,
        ),
{
    let mut sr: u64 = 0;
    let mut sg: u64 = 0;
    let mut sb: u64 = 0;
    let mut cnt: u64 = 0;
    let ghost wide: int = bx1 - bx;
    let mut yy: u32 = by;
    while yy < by1
        invariant
            bx < bx1 <= width_of(*img),
            by <= yy <= by1,
            by1 <= height_of(*img),
            wide == bx1 - bx,
            wide <= BLOCK,
            by1 - by <= BLOCK,
            cnt == (yy - by) * wide,
            sr + area_sum(*img, bx as int, bx1 as int, yy as int, by1 as int, 0) == area_sum(
                *img,
                bx as int,
                bx1 as int,
                by as int,
                by1 as int,
                0,
            ),
            sg + area_sum(*img, bx as int, bx1 as int, yy as int, by1 as int, 1) == area_sum(
                *img,
                bx as int,
                bx1 as int,
                by as int,
                by1 as int,
                1,
            ),
            sb + area_sum(*img, bx as int, bx1 as int, yy as int, by1 as int, 2) == area_sum(
                *img,
                bx as int,
                bx1 as int,
                by as int,
                by1 as int,
                2,
            ),
            sr <= 255 * cnt,
            sg <= 255 * cnt,
            sb <= 255 * cnt,
        decreases by1 - yy,
    {
        let mut xx: u32 = bx;
        proof {
            assert((yy - by) * wide <= BLOCK * BLOCK) by (nonlinear_arith)
                requires
                    0 <= yy - by < BLOCK,
                    0 <= wide <= BLOCK,
            ;
        }
        while xx < bx1
            invariant
                bx <= xx <= bx1 <= width_of(*img),
                by <= yy < by1 <= height_of(*img),
                wide == bx1 - bx,
                wide <= BLOCK,
                (yy - by) * wide <= BLOCK * BLOCK,
                cnt == (yy - by) * wide + (xx - bx),
                sr + row_sum(*img, yy as int, xx as int, bx1 as int, 0) + area_sum(
                    *img,
                    bx as int,
                    bx1 as int,
                    yy + 1,
                    by1 as int,
                    0,
                ) == area_sum(*img, bx as int, bx1 as int, by as int, by1 as int, 0),
                sg + row_sum(*img, yy as int, xx as int, bx1 as int, 1) + area_sum(
                    *img,
                    bx as int,
                    bx1 as int,
                    yy + 1,
                    by1 as int,
                    1,
                ) == area_sum(*img, bx as int, bx1 as int, by as int, by1 as int, 1),
                sb + row_sum(*img, yy as int, xx as int, bx1 as int, 2) + area_sum(
                    *img,
                    bx as int,
                    bx1 as int,
                    yy + 1,
                    by1 as int,
                    2,
                ) == area_sum(*img, bx as int, bx1 as int, by as int, by1 as int, 2),
                sr <= 255 * cnt,
                sg <= 255 * cnt,
                sb <= 255 * cnt,
            decreases bx1 - xx,
        {
            let p = img.get_pixel(xx, yy);
            sr = sr + p.0 as u64;
            sg = sg + p.1 as u64;
            sb = sb + p.2 as u64;
            cnt = cnt + 1;
            xx = xx + 1;
        }
        proof {
            assert((yy - by) * wide + wide == (yy + 1 - by) * wide) by (nonlinear_arith);
        }
        yy = yy + 1;
    }
    proof {
        assert(cnt > 0) by (nonlinear_arith)
            requires
                cnt == (by1 - by) * wide,
                by1 > by,
                wide > 0,
        ;
        assert(sr / cnt <= 255) by (nonlinear_arith)
            requires
                sr <= 255 * cnt,
                cnt > 0,
        ;
        assert(sg / cnt <= 255) by (nonlinear_arith)
            requires
                sg <= 255 * cnt,
                cnt > 0,
        ;
        assert(sb / cnt <= 255) by (nonlinear_arith)
            requires
                sb <= 255 * cnt,
                cnt > 0,
        ;
        assert(cnt == (bx1 - bx) * (by1 - by)) by (nonlinear_arith)
            requires
                cnt == (by1 - by) * wide,
                wide == bx1 - bx,
        ;
    }
    ((sr / cnt) as u8, (sg / cnt) as u8, (sb / cnt) as u8, 255)
}

/// A coordinate inside the block that starts at `b = lo + 12 k` belongs to that block.
proof fn lemma_block_of(lo: int, hi: int, b: int, k: int, v: int)
    requires
        0 <= k,
        b == lo + BLOCK * k,
        b <= v < b + BLOCK,
    ensures
        block_start(lo, v) == b,
        block_stop(lo, hi, v) == if b + BLOCK <= hi {
            b + BLOCK
        } else {
            hi
        },
{
    assert((v - lo) / 12 == k) by (nonlinear_arith)
        requires
            v - lo == 12 * k + (v - b),
            0 <= v - b < 12,
            0 <= k,
    ;
}

/// A block that starts below `hi` starts no later than the block of `hi - 1`.
proof fn lemma_block_start_bound(lo: int, hi: int, k: int)
    requires
        0 <= k,
        lo + BLOCK * k < hi,
    ensures
        lo + BLOCK * k <= block_start(lo, hi - 1),
{
    assert(k <= (hi - 1 - lo) / 12) by (nonlinear_arith)
        requires
            12 * k <= hi - 1 - lo,
            0 <= k,
    ;
    assert(12 * k <= 12 * ((hi - 1 - lo) / 12)) by (nonlinear_arith)
        requires
            k <= (hi - 1 - lo) / 12,
    ;
}

/// Applies the mosaic to the region `left..right` by `top..bottom`, cut to the image:
/// the region is laid with 12 by 12 blocks from its top-left corner (the last ones
/// cut at its edges) and each pixel takes the mean color of its block, opaque.
/// An empty region leaves the image as it is.
pub fn mosaic(img: &mut Raster, left: u32, top: u32, right: u32, bottom: u32)
    requires
        blocks_fit(
            mosaic_region(*old(img), left, top, right, bottom).0 as int,
            mosaic_region(*old(img), left, top, right, bottom).1 as int,
        ),
        blocks_fit(
            mosaic_region(*old(img), left, top, right, bottom).2 as int,
            mosaic_region(*old(img), left, top, right, bottom).3 as int,
        ),
    ensures
        is_mosaic(
            *final(img),
            *old(img),
            mosaic_region(*old(img), left, top, right, bottom).0 as int,
            mosaic_region(*old(img), left, top, right, bottom).1 as int,
            mosaic_region(*old(img), left, top, right, bottom).2 as int,
            mosaic_region(*old(img), left, top, right, bottom).3 as int,
        ),
{
    let w = img.width();
    let h = img.height();
    let x0 = if left <= w { left } else { w };
    let y0 = if top <= h { top } else { h };
    let x1 = if right <= w { right } else { w };
    let y1 = if bottom <= h { bottom } else { h };
    let ghost orig = *img;
    if x1 <= x0 || y1 <= y0 {
        return;
    }
    let mut by = y0;
    let ghost mut ky: int = 0;
    while by < y1
        invariant
            raster_size(*img) == raster_size(orig),
            w == width_of(orig),
            h == height_of(orig),
            x0 < x1 <= w,
            y0 < y1 <= h,
            blocks_fit(x0 as int, x1 as int),
            blocks_fit(y0 as int, y1 as int),
            0 <= ky,
            by == y0 + BLOCK * ky,
            by < y1 ==> by + BLOCK <= u32::MAX,
            forall|x: int, y: int|
                in_bounds(w, h, x, y) ==> #[trigger] pixel_at(*img, x, y) == if x0 <= x < x1 && y0
                    <= y < by && y < y1 {
                    mosaic_pixel(orig, x0 as int, x1 as int, y0 as int, y1 as int, x, y)
                } else {
                    pixel_at(orig, x, y)
                },
        decreases y1 + BLOCK - by,
    {
        let by1 = if by + BLOCK <= y1 { by + BLOCK } else { y1 };
        let mut bx = x0;
        let ghost mut kx: int = 0;
        proof {
            lemma_block_start_bound(x0 as int, x1 as int, 0);
        }
        while bx < x1
            invariant
                raster_size(*img) == raster_size(orig),
                w == width_of(orig),
                h == height_of(orig),
                x0 < x1 <= w,
                y0 <= by < by1 <= y1 <= h,
                by1 == if by + BLOCK <= y1 { by + BLOCK } else { y1 as int },
                blocks_fit(x0 as int, x1 as int),
                blocks_fit(y0 as int, y1 as int),
                0 <= ky,
                by == y0 + BLOCK * ky,
                0 <= kx,
                bx == x0 + BLOCK * kx,
                bx < x1 ==> bx + BLOCK <= u32::MAX,
                forall|x: int, y: int|
                    in_bounds(w, h, x, y) ==> #[trigger] pixel_at(*img, x, y) == if x0 <= x < x1
                        && (y0 <= y < by || (by <= y < by1 && x < bx)) {
                        mosaic_pixel(orig, x0 as int, x1 as int, y0 as int, y1 as int, x, y)
                    } else {
                        pixel_at(orig, x, y)
                    },
            decreases x1 + BLOCK - bx,
        {
            let bx1 = if bx + BLOCK <= x1 { bx + BLOCK } else { x1 };
            proof {
                assert forall|xx: int, yy: int|
                    bx <= xx < bx1 && by <= yy < by1 implies #[trigger] pixel_at(*img, xx, yy)
                    == pixel_at(orig, xx, yy) by {
                    assert(in_bounds(w, h, xx, yy));
                }
                lemma_area_sum_agree(*img, orig, bx as int, bx1 as int, by as int, by1 as int, 0);
                lemma_area_sum_agree(*img, orig, bx as int, bx1 as int, by as int, by1 as int, 1);
                lemma_area_sum_agree(*img, orig, bx as int, bx1 as int, by as int, by1 as int, 2);
            }
            let avg = block_mean(img, bx, bx1, by, by1);
            proof {
                assert forall|xx: int, yy: int|
                    bx <= xx < bx1 && by <= yy < by1 implies #[trigger] mosaic_pixel(
                    orig,
                    x0 as int,
                    x1 as int,
                    y0 as int,
                    y1 as int,
                    xx,
                    yy,
                ) == avg by {
                    lemma_block_of(x0 as int, x1 as int, bx as int, kx, xx);
                    lemma_block_of(y0 as int, y1 as int, by as int, ky, yy);
                }
            }
            let mut yy = by;
            while yy < by1
                invariant
                    raster_size(*img) == raster_size(orig),
                    w == width_of(orig),
                    h == height_of(orig),
                    x0 <= bx < bx1 <= x1 <= w,
                    y0 <= by <= yy <= by1 <= y1 <= h,
                    forall|xx: int, yy2: int|
                        bx <= xx < bx1 && by <= yy2 < by1 ==> #[trigger] mosaic_pixel(
                            orig,
                            x0 as int,
                            x1 as int,
                            y0 as int,
                            y1 as int,
                            xx,
                            yy2,
                        ) == avg,
                    forall|x: int, y: int|
                        in_bounds(w, h, x, y) ==> #[trigger] pixel_at(*img, x, y) == if x0 <= x
                            < x1 && (y0 <= y < by || (by <= y < by1 && x < bx) || (bx <= x < bx1
                            && by <= y < yy)) {
                            mosaic_pixel(orig, x0 as int, x1 as int, y0 as int, y1 as int, x, y)
                        } else {
                            pixel_at(orig, x, y)
                        },
                decreases by1 - yy,
            {
                let mut xx = bx;
                while xx < bx1
                    invariant
                        raster_size(*img) == raster_size(orig),
                        w == width_of(orig),
                        h == height_of(orig),
                        x0 <= bx <= xx <= bx1 <= x1 <= w,
                        y0 <= by <= yy < by1 <= y1 <= h,
                        forall|xx2: int, yy2: int|
                            bx <= xx2 < bx1 && by <= yy2 < by1 ==> #[trigger] mosaic_pixel(
                                orig,
                                x0 as int,
                                x1 as int,
                                y0 as int,
                                y1 as int,
                                xx2,
                                yy2,
                            ) == avg,
                        forall|x: int, y: int|
                            in_bounds(w, h, x, y) ==> #[trigger] pixel_at(*img, x, y) == if x0
                                <= x < x1 && (y0 <= y < by || (by <= y < by1 && x < bx) || (bx
                                <= x < bx1 && by <= y < yy) || (y == yy && bx <= x < xx)) {
                                mosaic_pixel(
                                    orig,
                                    x0 as int,
                                    x1 as int,
                                    y0 as int,
                                    y1 as int,
                                    x,
                                    y,
                                )
                            } else {
                                pixel_at(orig, x, y)
                            },
                    decreases bx1 - xx,
                {
                    let ghost before = *img;
                    img.put_pixel(xx, yy, avg);
                    proof {
                        lemma_put_pixel(before, *img, xx, yy, avg);
                        assert(mosaic_pixel(
                            orig,
                            x0 as int,
                            x1 as int,
                            y0 as int,
                            y1 as int,
                            xx as int,
                            yy as int,
                        ) == avg);
                    }
                    xx = xx + 1;
                }
                yy = yy + 1;
            }
            proof {
                if bx + BLOCK < x1 {
                    lemma_block_start_bound(x0 as int, x1 as int, kx + 1);
                }
                kx = kx + 1;
            }
            bx = bx + BLOCK;
        }
        proof {
            if by + BLOCK < y1 {
                lemma_block_start_bound(y0 as int, y1 as int, ky + 1);
            }
            ky = ky + 1;
        }
        by = by + BLOCK;
    }
}

/// A row whose channel `c` is `v` throughout sums to its length times `v`.
proof fn lemma_row_sum_const(a: Raster, y: int, x: int, x1: int, c: int, v: int)
    requires
        x <= x1,
        forall|xx: int| x <= xx < x1 ==> channel(#[trigger] pixel_at(a, xx, y), c) == v,
    ensures
        row_sum(a, y, x, x1, c) == (x1 - x) * v,
    decreases x1 - x,
{
    if x < x1 {
        assert(channel(pixel_at(a, x, y), c) == v);
        lemma_row_sum_const(a, y, x + 1, x1, c, v);
        assert(v + (x1 - (x + 1)) * v == (x1 - x) * v) by (nonlinear_arith);
    } else {
        assert((x1 - x) * v == 0) by (nonlinear_arith)
            requires
                x == x1,
        ;
    }
}

/// A rectangle whose channel `c` is `v` throughout sums to its area times `v`.
proof fn lemma_area_sum_const(a: Raster, x0: int, x1: int, y: int, y1: int, c: int, v: int)
    requires
        x0 <= x1,
        y <= y1,
        forall|xx: int, yy: int|
            x0 <= xx < x1 && y <= yy < y1 ==> channel(#[trigger] pixel_at(a, xx, yy), c) == v,
    ensures
        area_sum(a, x0, x1, y, y1, c) == (x1 - x0) * (y1 - y) * v,
    decreases y1 - y,
{
    if y < y1 {
        assert forall|xx: int| x0 <= xx < x1 implies channel(#[trigger] pixel_at(a, xx, y), c)
            == v by {}
        lemma_row_sum_const(a, y, x0, x1, c, v);
        lemma_area_sum_const(a, x0, x1, y + 1, y1, c, v);
        assert((x1 - x0) * v + (x1 - x0) * (y1 - (y + 1)) * v == (x1 - x0) * (y1 - y) * v)
            by (nonlinear_arith);
    } else {
        assert((x1 - x0) * (y1 - y) * v == 0) by (nonlinear_arith)
            requires
                y == y1,
        ;
    }
}

/// The block that holds `v` starts at `lo + 12 k` for `k = (v - lo) / 12`, and `v` lies in it.
proof fn lemma_block_holds(lo: int, hi: int, v: int)
    requires
        lo <= v < hi,
    ensures
        0 <= (v - lo) / 12,
        block_start(lo, v) == lo + BLOCK * ((v - lo) / 12),
        block_start(lo, v) <= v < block_stop(lo, hi, v),
        lo <= block_start(lo, v),
        block_stop(lo, hi, v) <= hi,
        block_stop(lo, hi, v) <= block_start(lo, v) + BLOCK,
{
    assert(0 <= (v - lo) - 12 * ((v - lo) / 12) < 12 && 0 <= (v - lo) / 12) by (nonlinear_arith)
        requires
            0 <= v - lo,
    ;
}

/// After one mosaic, the mosaic pixel of `once` at a point of the region is the one
/// `once` already holds there: its block is of one color, which is its own mean.
proof fn lemma_block_is_own_mean(
    img: Raster,
    once: Raster,
    x0: int,
    x1: int,
    y0: int,
    y1: int,
    x: int,
    y: int,
)
    requires
        0 <= x0,
        x1 <= width_of(img),
        0 <= y0,
        y1 <= height_of(img),
        is_mosaic(once, img, x0, x1, y0, y1),
        x0 <= x < x1,
        y0 <= y < y1,
    ensures
        mosaic_pixel(once, x0, x1, y0, y1, x, y) == mosaic_pixel(img, x0, x1, y0, y1, x, y),
{
    lemma_block_holds(x0, x1, x);
    lemma_block_holds(y0, y1, y);
    let kx = (x - x0) / 12;
    let ky = (y - y0) / 12;
    let bx = block_start(x0, x);
    let bx1 = block_stop(x0, x1, x);
    let by = block_start(y0, y);
    let by1 = block_stop(y0, y1, y);
    let q = mosaic_pixel(img, x0, x1, y0, y1, x, y);
    assert forall|xx: int, yy: int| bx <= xx < bx1 && by <= yy < by1 implies #[trigger] pixel_at(
        once,
        xx,
        yy,
    ) == q by {
        lemma_block_of(x0, x1, bx, kx, xx);
        lemma_block_of(y0, y1, by, ky, yy);
        assert(in_bounds(width_of(img), height_of(img), xx, yy));
    }
    let n = (bx1 - bx) * (by1 - by);
    assert(n > 0) by (nonlinear_arith)
        requires
            n == (bx1 - bx) * (by1 - by),
            bx < bx1,
            by < by1,
    ;
    assert forall|c: int| 0 <= c < 3 implies #[trigger] area_mean(once, bx, bx1, by, by1, c)
        == channel(q, c) by {
        assert forall|xx: int, yy: int| bx <= xx < bx1 && by <= yy < by1 implies channel(
            #[trigger] pixel_at(once, xx, yy),
            c,
        ) == channel(q, c) by {}
        lemma_area_sum_const(once, bx, bx1, by, by1, c, channel(q, c));
        let v = channel(q, c);
        assert((n * v) / n == v) by (nonlinear_arith)
            requires
                n > 0,
        ;
    }
    assert(area_mean(once, bx, bx1, by, by1, 0) == channel(q, 0));
    assert(area_mean(once, bx, bx1, by, by1, 1) == channel(q, 1));
    assert(area_mean(once, bx, bx1, by, by1, 2) == channel(q, 2));
}

/// A second mosaic over the same region leaves the picture as the first one left it:
/// every block already holds a single color, and that color is its own mean.
pub proof fn law_mosaic_twice_is_once(
    img: Raster,
    once: Raster,
    twice: Raster,
    left: u32,
    top: u32,
    right: u32,
    bottom: u32,
)
    requires
        is_mosaic(
            once,
            img,
            mosaic_region(img, left, top, right, bottom).0 as int,
            mosaic_region(img, left, top, right, bottom).1 as int,
            mosaic_region(img, left, top, right, bottom).2 as int,
            mosaic_region(img, left, top, right, bottom).3 as int,
        ),
        is_mosaic(
            twice,
            once,
            mosaic_region(once, left, top, right, bottom).0 as int,
            mosaic_region(once, left, top, right, bottom).1 as int,
            mosaic_region(once, left, top, right, bottom).2 as int,
            mosaic_region(once, left, top, right, bottom).3 as int,
        ),
    ensures
        same_picture(twice, once),
{
    let r = mosaic_region(img, left, top, right, bottom);
    assert(mosaic_region(once, left, top, right, bottom) == r);
    assert forall|x: int, y: int|
        in_bounds(width_of(twice), height_of(twice), x, y) implies #[trigger] pixel_at(
        twice,
        x,
        y,
    ) == pixel_at(once, x, y) by {
        if r.0 <= x < r.1 && r.2 <= y < r.3 {
            lemma_block_is_own_mean(img, once, r.0 as int, r.1 as int, r.2 as int, r.3 as int, x, y);
        }
    }
}

} // verus!
