use vstd::prelude::*;
use crate::bounds::{Bounds, holds_pair};

verus! {

/// `a / d` rounded toward zero, for `d > 0`.
pub open spec fn trunc_div(a: int, d: int) -> int {
    if a >= 0 {
        a / d
    } else {
        -((-a) / d)
    }
}

/// Pixel offset from the padding of a value along an axis whose drawable span
/// is `span`: the value's share of the way from `lo` to `hi`, times `span`.
/// On a degenerate axis (`lo == hi`) every value sits at the middle.
pub open spec fn axis_offset(v: int, lo: int, hi: int, span: int) -> int {
    if hi == lo {
        trunc_div(span, 2)
    } else {
        trunc_div((v - lo) * span, hi - lo)
    }
}

/// Pixel coordinate along an axis of `dim` pixels with `pad` pixels of
/// padding at each end, counted from the low end.
pub open spec fn axis_pixel(v: int, lo: int, hi: int, dim: int, pad: int) -> int {
    pad + axis_offset(v, lo, hi, dim - 2 * pad)
}

/// Pixel x of a data-space x value.
pub open spec fn pixel_x(x: int, b: Bounds, width: int, pad: int) -> int {
    axis_pixel(x, b.minx as int, b.maxx as int, width, pad)
}

/// Pixel y of a data-space y value: pixel rows grow downward, so the axis is
/// flipped.
pub open spec fn pixel_y(y: int, b: Bounds, height: int, pad: int) -> int {
    height - axis_pixel(y, b.miny as int, b.maxy as int, height, pad)
}

/// Where a label coordinate lands: a negative coordinate counts back from the
/// far edge, with the label's own extent taken off.
pub open spec fn anchored(c: int, extent: int, glyph: int) -> int {
    if c < 0 {
        extent + c - glyph
    } else {
        c
    }
}

/// Offset of `v` along an axis; `v` lies within `lo ..= hi`.
fn offset(v: i64, lo: i64, hi: i64, span: i128) -> (r: i128)
    requires
        lo <= v <= hi,
        -0x2_0000_0000 <= span <= 0x1_0000_0000,
    ensures
        r == axis_offset(v as int, lo as int, hi as int, span as int),
        span >= 0 ==> 0 <= r <= span,
        span < 0 ==> span <= r <= 0,
{
    if hi == lo {
        if span >= 0 {
            (span as u128 / 2) as i128
        } else {
            0 - ((0 - span) as u128 / 2) as i128
        }
    } else {
        let diff = v as i128 - lo as i128;
        let d = hi as i128 - lo as i128;
        let mag: i128 = if span >= 0 { span } else { 0 - span };
        proof {
            assert(0 <= diff * mag <= d * mag) by (nonlinear_arith)
                requires
                    0 <= diff <= d,
                    0 <= mag,
            ;
            assert(d * mag <= 0x1_0000_0000_0000_0000 * 0x2_0000_0000) by (nonlinear_arith)
                requires
                    0 < d <= 0x1_0000_0000_0000_0000,
                    0 <= mag <= 0x2_0000_0000,
            ;
            assert((diff * mag) / (d as int) <= mag) by (nonlinear_arith)
                requires
                    0 <= diff <= d,
                    0 < d,
                    0 <= mag,
            ;
            assert(0 <= (diff * mag) / (d as int)) by (nonlinear_arith)
                requires
                    0 <= diff * mag,
                    0 < d,
            ;
        }
        let q = ((diff * mag) as u128 / d as u128) as i128;
        proof {
            if span < 0 {
                assert(diff * span == -(diff * mag)) by (nonlinear_arith)
                    requires
                        mag == -span,
                ;
            }
        }
        if span >= 0 {
            q
        } else {
            if diff == 0 {
                proof {
                    assert(diff * mag == 0);
                }
            }
            0 - q
        }
    }
}

/// Maps a data-space point to pixel coordinates on a `size` canvas with `pad`
/// pixels of padding on every side.
pub fn map_point(x: i64, y: i64, b: &Bounds, size: (u32, u32), pad: u32) -> (r: (i64, i64))
    requires
        b.is_init,
        holds_pair(*b, x, y),
    ensures
        r.0 == pixel_x(x as int, *b, size.0 as int, pad as int),
        r.1 == pixel_y(y as int, *b, size.1 as int, pad as int),
{
    let span_x = size.0 as i128 - 2 * pad as i128;
    let span_y = size.1 as i128 - 2 * pad as i128;
    let ox = offset(x, b.minx, b.maxx, span_x);
    let oy = offset(y, b.miny, b.maxy, span_y);
    let px = pad as i128 + ox;
    let py = size.1 as i128 - (pad as i128 + oy);
    (px as i64, py as i64)
}

/// Resolves a label coordinate against the canvas extent along its axis and
/// the label's extent along it.
pub fn anchor(c: i32, extent: u32, glyph: u32) -> (r: i64)
    ensures
        r == anchored(c as int, extent as int, glyph as int),
{
    if c < 0 {
        extent as i64 + c as i64 - glyph as i64
    } else {
        c as i64
    }
}

/// For bounds that are not degenerate, the lowest corner of the data lands at
/// the bottom-left inner corner of the canvas, and the highest at the top-right.
pub proof fn lemma_corners(b: Bounds, width: int, height: int, pad: int)
    requires
        b.minx < b.maxx,
        b.miny < b.maxy,
    ensures
        pixel_x(b.minx as int, b, width, pad) == pad,
        pixel_y(b.miny as int, b, height, pad) == height - pad,
        pixel_x(b.maxx as int, b, width, pad) == width - pad,
        pixel_y(b.maxy as int, b, height, pad) == pad,
{
    lemma_full_offset(b.maxx - b.minx, width - 2 * pad);
    lemma_full_offset(b.maxy - b.miny, height - 2 * pad);
}

proof fn lemma_full_offset(d: int, span: int)
    requires
        d > 0,
    ensures
        trunc_div(d * span, d) == span,
        trunc_div(0 * span, d) == 0,
{
    if span >= 0 {
        assert((d * span) / d == span) by (nonlinear_arith)
            requires
                d > 0,
        ;
        assert(d * span >= 0) by (nonlinear_arith)
            requires
                d > 0,
                span >= 0,
        ;
    } else {
        assert(d * span < 0) by (nonlinear_arith)
            requires
                d > 0,
                span < 0,
        ;
        assert(-(d * span) == d * (-span)) by (nonlinear_arith);
        assert((d * (-span)) / d == -span) by (nonlinear_arith)
            requires
                d > 0,
        ;
    }
}

/// On a degenerate axis every value maps to one and the same pixel, the
/// middle of the drawable span: never an undefined coordinate.
pub proof fn lemma_degenerate_axis(b: Bounds, x1: int, x2: int, width: int, pad: int)
    requires
        b.minx == b.maxx,
    ensures
        pixel_x(x1, b, width, pad) == pixel_x(x2, b, width, pad),
        pixel_x(x1, b, width, pad) == pad + trunc_div(width - 2 * pad, 2),
{
}

} // verus!
