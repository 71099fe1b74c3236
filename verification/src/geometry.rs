//! Placement of a window on an output, as proportions of the output.
use vstd::prelude::*;
use crate::config::{Margins, Placement};
use crate::model::{LogicalOutput, FULL_PERCENT};

verus! {

/// Where a floating window's top-left corner goes, as proportions of the output,
/// in millionths of a percent (from 0 to 100%).
#[derive(Debug, Clone, Copy, PartialEq, Eq, Structural)]
pub struct PlacementPlan {
    pub x_percent: u32,
    pub y_percent: u32,
}

/// `v` held inside `[lo, hi]`.
pub open spec fn clamp(v: int, lo: int, hi: int) -> int {
    if v < lo {
        lo
    } else if v > hi {
        hi
    } else {
        v
    }
}

/// The proportion `num / den` of a whole, in millionths of a percent, rounded down and held
/// between 0 and 100%.
pub open spec fn proportion(num: int, den: int) -> int {
    clamp(num * FULL_PERCENT as int / den, 0, FULL_PERCENT as int)
}

/// Computes `proportion(num, den)`.
pub fn proportion_of(num: i64, den: u64) -> (r: u32)
    requires
        den > 0,
        -0x10_0000_0000_0000 <= num <= 0x10_0000_0000_0000,
    ensures
        r as int == proportion(num as int, den as int),
        r <= FULL_PERCENT,
{
    if num <= 0 {
        proof {
            assert(num * FULL_PERCENT as int / den as int <= 0) by (nonlinear_arith)
                requires
                    num <= 0,
                    den > 0,
            ;
        }
        return 0;
    }
    assert((num as u128) * (FULL_PERCENT as u128) <= 0x10_0000_0000_0000 * 100_000_000) by (nonlinear_arith)
        requires
            0 < num <= 0x10_0000_0000_0000,
    ;
    let scaled: u128 = (num as u128) * (FULL_PERCENT as u128);
    let q: u128 = scaled / (den as u128);
    if q > FULL_PERCENT as u128 {
        FULL_PERCENT
    } else {
        q as u32
    }
}

/// The placement that `corner_placement` computes, before conversion to proportions:
/// the corner's offset from the output's top-left corner, doubled so that it is whole.
pub open spec fn corner_offset2(
    width: int,
    height: int,
    window: (int, int),
    placement: Placement,
    gap: int,
    margins: Margins,
) -> (int, int) {
    let ww = if window.0 < width { window.0 } else { width };
    let wh = if window.1 < height { window.1 } else { height };
    let left = margins.left + gap;
    let right = margins.right + gap;
    let top = margins.top + gap;
    let bottom = margins.bottom + gap;
    let right_x = if width - ww - right > left {
        width - ww - right
    } else {
        left
    };
    let bottom_y = if height - wh - bottom > top {
        height - wh - bottom
    } else {
        top
    };
    match placement {
        Placement::TopLeft => (2 * left, 2 * top),
        Placement::TopRight => (2 * right_x, 2 * top),
        Placement::BottomLeft => (2 * left, 2 * bottom_y),
        Placement::BottomRight => (2 * right_x, 2 * bottom_y),
        Placement::Center => (width - ww, height - wh),
    }
}

/// The plan for a window of `window_size` at `placement` on `output`, keeping `gap` plus the
/// margins from the edges (the centre ignores them). A zero-sized output counts as one pixel.
pub open spec fn corner_plan(
    output: LogicalOutput,
    window_size: (u32, u32),
    placement: Placement,
    gap: u32,
    margins: Margins,
) -> PlacementPlan {
    let width = if output.width == 0 { 1 } else { output.width as int };
    let height = if output.height == 0 { 1 } else { output.height as int };
    let ww = if window_size.0 < output.width { window_size.0 as int } else { output.width as int };
    let wh = if window_size.1 < output.height { window_size.1 as int } else { output.height as int };
    let off = corner_offset2(width, height, (ww, wh), placement, gap as int, margins);
    PlacementPlan {
        x_percent: proportion(off.0, 2 * width) as u32,
        y_percent: proportion(off.1, 2 * height) as u32,
    }
}

/// Where a window of the given size goes for a placement on an output, as shares of the output.
pub fn corner_placement(
    output: LogicalOutput,
    window_size: (u32, u32),
    placement: Placement,
    gap: u32,
    margins: Margins,
) -> (r: PlacementPlan)
    ensures
        r == corner_plan(output, window_size, placement, gap, margins),
        r.x_percent <= FULL_PERCENT,
        r.y_percent <= FULL_PERCENT,
{
    let width: i64 = if output.width == 0 {
        1
    } else {
        output.width as i64
    };
    let height: i64 = if output.height == 0 {
        1
    } else {
        output.height as i64
    };
    let ww: i64 = if window_size.0 < output.width {
        window_size.0 as i64
    } else {
        output.width as i64
    };
    let wh: i64 = if window_size.1 < output.height {
        window_size.1 as i64
    } else {
        output.height as i64
    };
    let left: i64 = margins.left as i64 + gap as i64;
    let right: i64 = margins.right as i64 + gap as i64;
    let top: i64 = margins.top as i64 + gap as i64;
    let bottom: i64 = margins.bottom as i64 + gap as i64;
    let right_x: i64 = if width - ww - right > left {
        width - ww - right
    } else {
        left
    };
    let bottom_y: i64 = if height - wh - bottom > top {
        height - wh - bottom
    } else {
        top
    };
    let (x2, y2): (i64, i64) = match placement {
        Placement::TopLeft => (2 * left, 2 * top),
        Placement::TopRight => (2 * right_x, 2 * top),
        Placement::BottomLeft => (2 * left, 2 * bottom_y),
        Placement::BottomRight => (2 * right_x, 2 * bottom_y),
        Placement::Center => (width - ww, height - wh),
    };
    let x_percent = proportion_of(x2, (2 * width) as u64);
    let y_percent = proportion_of(y2, (2 * height) as u64);
    PlacementPlan { x_percent, y_percent }
}

/// Halving both parts of a fraction leaves its whole part as it was.
proof fn lemma_div_double(x: int, y: int)
    requires
        y > 0,
    ensures
        (2 * x) / (2 * y) == x / y,
{
    let q = x / y;
    let r = x % y;
    vstd::arithmetic::div_mod::lemma_fundamental_div_mod(x, y);
    assert(2 * x == q * (2 * y) + 2 * r) by (nonlinear_arith)
        requires
            x == y * q + r,
    ;
    vstd::arithmetic::div_mod::lemma_fundamental_div_mod_converse(2 * x, 2 * y, q, 2 * r);
}

/// A share in doubled units is the same share.
proof fn lemma_proportion_double(a: int, d: int)
    requires
        d > 0,
    ensures
        proportion(2 * a, 2 * d) == proportion(a, d),
{
    assert((2 * a) * FULL_PERCENT as int == 2 * (a * FULL_PERCENT as int)) by (nonlinear_arith);
    lemma_div_double(a * FULL_PERCENT as int, d);
}

/// Where `corner_placement` puts a window, stated edge by edge, with `W` and `H` the output's
/// size (at least one pixel) and the window no larger than the output:
/// - on the left (top-left, bottom-left) its left edge is `margins.left + gap` from the
///   output's left edge; on the right (top-right, bottom-right) its right edge is
///   `margins.right + gap` from the output's right edge, unless that would cross the left
///   inset;
/// - at the top (top-left, top-right) its top edge is `margins.top + gap` from the output's
///   top edge; at the bottom (bottom-left, bottom-right) its bottom edge is
///   `margins.bottom + gap` from the output's bottom edge, unless that would cross the top
///   inset;
/// - in the centre it is centred;
/// each position given as a share of the output's width or height.
pub proof fn law_corner_placement(output: LogicalOutput, window_size: (u32, u32), placement: Placement, gap: u32, margins: Margins)
    ensures
        ({
            let p = corner_plan(output, window_size, placement, gap, margins);
            let w = if output.width == 0 { 1int } else { output.width as int };
            let h = if output.height == 0 { 1int } else { output.height as int };
            let ww = if window_size.0 < output.width { window_size.0 as int } else { output.width as int };
            let wh = if window_size.1 < output.height { window_size.1 as int } else { output.height as int };
            let left = margins.left + gap;
            let top = margins.top + gap;
            let right_edge = w - ww - (margins.right + gap);
            let bottom_edge = h - wh - (margins.bottom + gap);
            &&& (placement is TopLeft || placement is BottomLeft) ==> p.x_percent == proportion(left, w)
            &&& (placement is TopRight || placement is BottomRight) ==> p.x_percent == proportion(
                if right_edge > left { right_edge } else { left as int }, w)
            &&& (placement is TopLeft || placement is TopRight) ==> p.y_percent == proportion(top, h)
            &&& (placement is BottomLeft || placement is BottomRight) ==> p.y_percent == proportion(
                if bottom_edge > top { bottom_edge } else { top as int }, h)
            &&& placement is Center ==> p.x_percent == proportion(w - ww, 2 * w)
                && p.y_percent == proportion(h - wh, 2 * h)
        }),
{
    let w = if output.width == 0 { 1int } else { output.width as int };
    let h = if output.height == 0 { 1int } else { output.height as int };
    let ww = if window_size.0 < output.width { window_size.0 as int } else { output.width as int };
    let wh = if window_size.1 < output.height { window_size.1 as int } else { output.height as int };
    let left = margins.left + gap;
    let top = margins.top + gap;
    let right_edge = w - ww - (margins.right + gap);
    let bottom_edge = h - wh - (margins.bottom + gap);
    let rx = if right_edge > left { right_edge } else { left as int };
    let by = if bottom_edge > top { bottom_edge } else { top as int };
    lemma_proportion_double(left as int, w);
    lemma_proportion_double(rx, w);
    lemma_proportion_double(top as int, h);
    lemma_proportion_double(by, h);
}

/// A window placed at the top sits above the same window placed at the bottom, and one placed
/// on the left sits left of the same window placed on the right; the centre lies between.
pub proof fn law_corner_order(output: LogicalOutput, window_size: (u32, u32), gap: u32, margins: Margins)
    ensures
        corner_plan(output, window_size, Placement::TopLeft, gap, margins).y_percent
            <= corner_plan(output, window_size, Placement::BottomLeft, gap, margins).y_percent,
        corner_plan(output, window_size, Placement::TopRight, gap, margins).y_percent
            <= corner_plan(output, window_size, Placement::BottomRight, gap, margins).y_percent,
        corner_plan(output, window_size, Placement::TopLeft, gap, margins).x_percent
            <= corner_plan(output, window_size, Placement::TopRight, gap, margins).x_percent,
        corner_plan(output, window_size, Placement::BottomLeft, gap, margins).x_percent
            <= corner_plan(output, window_size, Placement::BottomRight, gap, margins).x_percent,
        corner_plan(output, window_size, Placement::TopLeft, gap, margins).y_percent
            == corner_plan(output, window_size, Placement::TopRight, gap, margins).y_percent,
        corner_plan(output, window_size, Placement::TopLeft, gap, margins).x_percent
            == corner_plan(output, window_size, Placement::BottomLeft, gap, margins).x_percent,
{
    law_corner_placement(output, window_size, Placement::TopLeft, gap, margins);
    law_corner_placement(output, window_size, Placement::TopRight, gap, margins);
    law_corner_placement(output, window_size, Placement::BottomLeft, gap, margins);
    law_corner_placement(output, window_size, Placement::BottomRight, gap, margins);
    let w = if output.width == 0 { 1int } else { output.width as int };
    let h = if output.height == 0 { 1int } else { output.height as int };
    let ww = if window_size.0 < output.width { window_size.0 as int } else { output.width as int };
    let wh = if window_size.1 < output.height { window_size.1 as int } else { output.height as int };
    let left = margins.left + gap;
    let top = margins.top + gap;
    let right_edge = w - ww - (margins.right + gap);
    let bottom_edge = h - wh - (margins.bottom + gap);
    let rx = if right_edge > left { right_edge } else { left as int };
    let by = if bottom_edge > top { bottom_edge } else { top as int };
    lemma_proportion_monotone(left as int, rx, w);
    lemma_proportion_monotone(top as int, by, h);
}

/// A larger part of the same whole is no smaller a share.
proof fn lemma_proportion_monotone(a: int, b: int, d: int)
    requires
        d > 0,
        a <= b,
    ensures
        proportion(a, d) <= proportion(b, d),
{
    assert(a * FULL_PERCENT as int <= b * FULL_PERCENT as int) by (nonlinear_arith)
        requires
            a <= b,
    ;
    vstd::arithmetic::div_mod::lemma_div_is_ordered(a * FULL_PERCENT as int, b * FULL_PERCENT as int, d);
}

/// `w` is `sqrt(n / d)` rounded to the nearest whole number, halves upward.
pub open spec fn is_rounded_sqrt(w: int, n: int, d: int) -> bool {
    &&& w >= 0
    &&& (w == 0 || (2 * w - 1) * (2 * w - 1) * d <= 4 * n)
    &&& 4 * n < (2 * w + 1) * (2 * w + 1) * d
}

/// The part of `is_rounded_sqrt` that holds of every value up to the answer.
pub open spec fn sqrt_floor_ok(w: int, n: int, d: int) -> bool {
    w == 0 || (2 * w - 1) * (2 * w - 1) * d <= 4 * n
}

/// `sqrt(n / d)` rounded to the nearest whole number.
pub fn rounded_sqrt_ratio(n: u128, d: u128) -> (w: u64)
    requires
        0 < d <= 0x100_0000_0000,
        n <= d * 0x4_0000_0000_0000_0000,
    ensures
        is_rounded_sqrt(w as int, n as int, d as int),
{
    let mut lo: u64 = 0;
    let mut hi: u64 = 0x4_0000_0001;
    proof {
        assert(4 * n <= d * 0x10_0000_0000_0000_0000) by (nonlinear_arith)
            requires
                n <= d * 0x4_0000_0000_0000_0000,
        ;
        assert((2 * (hi as int) - 1) * (2 * (hi as int) - 1) * (d as int) > 4 * (n as int)) by (nonlinear_arith)
            requires
                hi == 0x4_0000_0001,
                d > 0,
                4 * n <= d * 0x10_0000_0000_0000_0000,
        ;
    }
    while hi - lo > 1
        invariant
            0 < d <= 0x100_0000_0000,
            n <= d * 0x4_0000_0000_0000_0000,
            lo < hi <= 0x4_0000_0001,
            sqrt_floor_ok(lo as int, n as int, d as int),
            !sqrt_floor_ok(hi as int, n as int, d as int),
        decreases hi - lo,
    {
        let mid: u64 = lo + (hi - lo) / 2;
        let m: u128 = 2 * (mid as u128) - 1;
        proof {
            assert(m * m <= 0x10_0000_0000 * 0x10_0000_0000) by (nonlinear_arith)
                requires
                    m < 0x10_0000_0000,
            ;
            assert(m * m * d <= 0x10_0000_0000 * 0x10_0000_0000 * 0x100_0000_0000) by (nonlinear_arith)
                requires
                    m < 0x10_0000_0000,
                    d <= 0x100_0000_0000,
            ;
            assert(4 * n <= 0x100_0000_0000 * 0x10_0000_0000_0000_0000) by (nonlinear_arith)
                requires
                    n <= d * 0x4_0000_0000_0000_0000,
                    d <= 0x100_0000_0000,
            ;
        }
        if m * m * d <= 4 * n {
            lo = mid;
        } else {
            hi = mid;
        }
    }
    proof {
        assert(hi == lo + 1);
    }
    lo
}

/// `num / den` rounded to the nearest whole number, halves upward.
pub open spec fn round_div(num: int, den: int) -> int {
    (2 * num + den) / (2 * den)
}

/// The unique `w` with `is_rounded_sqrt(w, n, d)`.
pub open spec fn rounded_sqrt(n: int, d: int) -> int {
    choose|w: int| is_rounded_sqrt(w, n, d)
}

/// Only one number is the rounded square root.
pub proof fn lemma_rounded_sqrt_unique(a: int, b: int, n: int, d: int)
    requires
        d > 0,
        is_rounded_sqrt(a, n, d),
        is_rounded_sqrt(b, n, d),
    ensures
        a == b,
{
    if a < b {
        assert((2 * a + 1) * (2 * a + 1) * d <= (2 * b - 1) * (2 * b - 1) * d) by (nonlinear_arith)
            requires
                0 <= a < b,
                d > 0,
        ;
    } else if b < a {
        assert((2 * b + 1) * (2 * b + 1) * d <= (2 * a - 1) * (2 * a - 1) * d) by (nonlinear_arith)
            requires
                0 <= b < a,
                d > 0,
        ;
    }
}

/// `rounded_sqrt_ratio` computes `rounded_sqrt`.
pub proof fn lemma_rounded_sqrt_is(w: int, n: int, d: int)
    requires
        d > 0,
        is_rounded_sqrt(w, n, d),
    ensures
        rounded_sqrt(n, d) == w,
{
    let c = rounded_sqrt(n, d);
    assert(is_rounded_sqrt(c, n, d));
    lemma_rounded_sqrt_unique(c, w, n, d);
}

} // verus!
