//! Target sizes: how large an image is rendered inside a pixel box, and how
//! far a pixel budget shrinks it again.

use vstd::prelude::*;
use crate::fit::FitMode;

verus! {

/// The contain scale as a fraction `(numerator, denominator)`: the smaller of
/// `max_w / orig_w` and `max_h / orig_h`. A side of length zero puts no
/// bound on the scale, so the other side decides; the denominator is never
/// zero.
pub open spec fn contain_scale(orig: (u32, u32), max: (u32, u32)) -> (int, int) {
    let by_width = orig.1 == 0 || (orig.0 != 0 && max.0 * orig.1 <= max.1 * orig.0);
    if by_width {
        if orig.0 == 0 {
            (0, 1)
        } else {
            (max.0 as int, orig.0 as int)
        }
    } else {
        (max.1 as int, orig.1 as int)
    }
}

/// `len` scaled by `num / den`, rounded down, but at least one.
pub open spec fn scale_side(len: int, num: int, den: int) -> int {
    let scaled = (len * num) / den;
    if scaled < 1 { 1 } else { scaled }
}

/// Both sides scaled by the contain scale.
pub open spec fn contained(orig: (u32, u32), max: (u32, u32)) -> (int, int) {
    let (num, den) = contain_scale(orig, max);
    (scale_side(orig.0 as int, num, den), scale_side(orig.1 as int, num, den))
}

/// The size an image of size `orig` is rendered at inside the box `max`.
/// `Normal` leaves an image that fits untouched and shrinks one that does
/// not; `Fit` always scales to the box, enlarging if need be.
pub open spec fn target_size(orig: (u32, u32), max: (u32, u32), fit_mode: FitMode) -> (int, int) {
    match fit_mode {
        FitMode::Normal => {
            if orig.0 > max.0 || orig.1 > max.1 {
                contained(orig, max)
            } else {
                (orig.0 as int, orig.1 as int)
            }
        },
        FitMode::Fit => contained(orig, max),
    }
}

/// A scaled side never exceeds its bound, except that it is never below one.
pub proof fn lemma_contained_within(orig: (u32, u32), max: (u32, u32))
    ensures
        1 <= contained(orig, max).0 <= (if max.0 == 0 { 1 } else { max.0 as int }),
        1 <= contained(orig, max).1 <= (if max.1 == 0 { 1 } else { max.1 as int }),
{
    let (num, den) = contain_scale(orig, max);
    let w = orig.0 as int;
    let h = orig.1 as int;
    let mw = max.0 as int;
    let mh = max.1 as int;
    assert(den > 0);
    let by_width = orig.1 == 0 || (orig.0 != 0 && max.0 * orig.1 <= max.1 * orig.0);
    if by_width {
        if orig.0 == 0 {
            assert((w * num) / den == 0) by (nonlinear_arith)
                requires
                    num == 0,
                    den == 1,
            ;
            assert((h * num) / den == 0) by (nonlinear_arith)
                requires
                    num == 0,
                    den == 1,
            ;
        } else {
            assert((w * mw) / w == mw) by (nonlinear_arith)
                requires
                    w > 0,
                    mw >= 0,
            ;
            if h == 0 {
                assert(h * mw == 0) by (nonlinear_arith)
                    requires
                        h == 0,
                ;
                assert(0int / w == 0);
            } else {
                assert(h * mw == mw * h) by (nonlinear_arith);
                assert(mh * w == w * mh) by (nonlinear_arith);
                vstd::arithmetic::div_mod::lemma_div_is_ordered(h * mw, w * mh, w);
                vstd::arithmetic::div_mod::lemma_div_multiples_vanish(mh, w);
                assert((h * mw) / w <= mh);
            }
        }
    } else {
        assert(h > 0);
        assert((h * mh) / h == mh) by (nonlinear_arith)
            requires
                h > 0,
                mh >= 0,
        ;
        if w == 0 {
            assert(w * mh == 0) by (nonlinear_arith)
                requires
                    w == 0,
            ;
            assert(0int / h == 0);
        } else {
            assert(w * mh == mh * w) by (nonlinear_arith);
            assert(mw * h == h * mw) by (nonlinear_arith);
            vstd::arithmetic::div_mod::lemma_div_is_ordered(w * mh, h * mw, h);
            vstd::arithmetic::div_mod::lemma_div_multiples_vanish(mw, h);
            assert((w * mh) / h <= mw);
        }
    }
}

/// In `Normal` mode an image that fits inside the box keeps its size.
pub proof fn lemma_normal_keeps_fitting(orig: (u32, u32), max: (u32, u32))
    requires
        orig.0 <= max.0,
        orig.1 <= max.1,
    ensures
        target_size(orig, max, FitMode::Normal) == (orig.0 as int, orig.1 as int),
{
}

/// In either mode the target fits inside the box; a bound of zero is read as
/// one, since no side is ever scaled below one.
pub proof fn lemma_target_fits(orig: (u32, u32), max: (u32, u32), fit_mode: FitMode)
    ensures
        target_size(orig, max, fit_mode).0 <= spec_at_least_one(max.0 as int),
        target_size(orig, max, fit_mode).1 <= spec_at_least_one(max.1 as int),
{
    lemma_contained_within(orig, max);
}

pub open spec fn spec_at_least_one(v: int) -> int {
    if v < 1 { 1 } else { v }
}

/// `Fit` saturates: whenever the image has a side of non-zero length, one
/// side of the target equals its bound (a bound of zero read as one).
pub proof fn lemma_fit_saturates(orig: (u32, u32), max: (u32, u32))
    requires
        orig.0 > 0 || orig.1 > 0,
    ensures
        target_size(orig, max, FitMode::Fit).0 == spec_at_least_one(max.0 as int) || target_size(
            orig,
            max,
            FitMode::Fit,
        ).1 == spec_at_least_one(max.1 as int),
{
    let w = orig.0 as int;
    let h = orig.1 as int;
    let mw = max.0 as int;
    let mh = max.1 as int;
    let by_width = orig.1 == 0 || (orig.0 != 0 && max.0 * orig.1 <= max.1 * orig.0);
    if by_width {
        vstd::arithmetic::div_mod::lemma_div_multiples_vanish(mw, w);
    } else {
        vstd::arithmetic::div_mod::lemma_div_multiples_vanish(mh, h);
    }
}

/// Scaling keeps the aspect ratio up to rounding down: when the image has no
/// side of length zero and no side of the result had to be raised to one,
/// the cross products `w * orig_h` and `h * orig_w` differ by less than the
/// longer side of the original.
pub proof fn lemma_scaling_keeps_aspect(orig: (u32, u32), max: (u32, u32))
    requires
        orig.0 > 0,
        orig.1 > 0,
        (orig.0 * contain_scale(orig, max).0) / contain_scale(orig, max).1 >= 1,
        (orig.1 * contain_scale(orig, max).0) / contain_scale(orig, max).1 >= 1,
    ensures
        ({
            let (w, h) = contained(orig, max);
            let longer = if orig.0 >= orig.1 { orig.0 as int } else { orig.1 as int };
            -longer < w * orig.1 - h * orig.0 < longer
        }),
{
    let ow = orig.0 as int;
    let oh = orig.1 as int;
    let (num, den) = contain_scale(orig, max);
    let (w, h) = contained(orig, max);
    vstd::arithmetic::div_mod::lemma_fundamental_div_mod(ow * num, den);
    vstd::arithmetic::div_mod::lemma_fundamental_div_mod(oh * num, den);
    vstd::arithmetic::div_mod::lemma_mod_bound(ow * num, den);
    vstd::arithmetic::div_mod::lemma_mod_bound(oh * num, den);
    let rw = (ow * num) % den;
    let rh = (oh * num) % den;
    // den * w == ow * num - rw and den * h == oh * num - rh, so
    // den * (w * oh - h * ow) == rh * ow - rw * oh.
    assert(den * (w * oh - h * ow) == rh * ow - rw * oh) by (nonlinear_arith)
        requires
            ow * num == den * w + rw,
            oh * num == den * h + rh,
    ;
    let longer = if ow >= oh { ow } else { oh };
    assert(-longer < w * oh - h * ow < longer) by (nonlinear_arith)
        requires
            den * (w * oh - h * ow) == rh * ow - rw * oh,
            0 <= rw < den,
            0 <= rh < den,
            0 < ow <= longer,
            0 < oh <= longer,
            den > 0,
    ;
}

/// Where the flooring error is small against the result, the aspect ratio
/// of the result is within one hundredth of the original's: with `w / h` the
/// new ratio and `orig_w / orig_h` the old, `100 * |w * orig_h - h * orig_w|`
/// stays below `h * orig_h`.
pub proof fn lemma_aspect_within_hundredth(orig: (u32, u32), max: (u32, u32))
    requires
        orig.0 > 0,
        orig.1 > 0,
        (orig.0 * contain_scale(orig, max).0) / contain_scale(orig, max).1 >= 1,
        (orig.1 * contain_scale(orig, max).0) / contain_scale(orig, max).1 >= 1,
        100 * (if orig.0 >= orig.1 { orig.0 as int } else { orig.1 as int }) <= contained(
            orig,
            max,
        ).1 * orig.1,
    ensures
        ({
            let (w, h) = contained(orig, max);
            let cross = w * orig.1 - h * orig.0;
            -(h * orig.1) < 100 * cross < h * orig.1
        }),
{
    lemma_scaling_keeps_aspect(orig, max);
}

/// Whether `k` is the square root of `num / den` rounded down.
pub open spec fn is_floor_sqrt(k: int, num: int, den: int) -> bool {
    &&& k >= 0
    &&& k * k * den <= num
    &&& num < (k + 1) * (k + 1) * den
}

/// The square root of `num / den`, rounded down.
pub open spec fn floor_sqrt(num: int, den: int) -> int {
    choose|k: int| is_floor_sqrt(k, num, den)
}

/// A ratio has at most one rounded-down square root.
pub proof fn lemma_floor_sqrt_unique(k1: int, k2: int, num: int, den: int)
    requires
        den > 0,
        is_floor_sqrt(k1, num, den),
        is_floor_sqrt(k2, num, den),
    ensures
        k1 == k2,
{
    if k1 < k2 {
        assert((k1 + 1) * (k1 + 1) * den <= k2 * k2 * den) by (nonlinear_arith)
            requires
                0 <= k1 + 1 <= k2,
                den > 0,
        ;
    } else if k2 < k1 {
        assert((k2 + 1) * (k2 + 1) * den <= k1 * k1 * den) by (nonlinear_arith)
            requires
                0 <= k2 + 1 <= k1,
                den > 0,
        ;
    }
}

/// One side of a target after the pixel budget: the side times
/// `sqrt(budget / (side * other))`, rounded down, but at least one. Since
/// `side * sqrt(budget / (side * other))` is `sqrt(side * budget / other)`,
/// no irrational value has to be represented.
pub open spec fn budget_side(side: int, other: int, budget: int) -> int {
    spec_at_least_one(floor_sqrt(side * budget, other))
}

/// A target after the pixel budget: unchanged while its pixel count is
/// within the budget, otherwise both sides scaled down by the same factor.
pub open spec fn within_budget(target: (int, int), budget: int) -> (int, int) {
    if target.0 * target.1 > budget {
        (budget_side(target.0, target.1, budget), budget_side(target.1, target.0, budget))
    } else {
        target
    }
}

/// The render size of an image: the target for the fit mode, and in
/// `Normal` mode the pixel budget applied to it.
pub open spec fn render_size(orig: (u32, u32), max: (u32, u32), fit_mode: FitMode, budget: u64) -> (
    int,
    int,
) {
    let target = target_size(orig, max, fit_mode);
    match fit_mode {
        FitMode::Normal => within_budget(target, budget as int),
        FitMode::Fit => target,
    }
}

/// Square root of `num / den`, rounded down, by bisection below `limit`.
fn floor_sqrt_ratio(num: u128, den: u64, limit: u32) -> (k: u32)
    requires
        den > 0,
        num < limit * limit * den,
    ensures
        is_floor_sqrt(k as int, num as int, den as int),
        k < limit,
{
    let mut lo: u32 = 0;
    let mut hi: u32 = limit;
    assert(0 * 0 * den == 0) by (nonlinear_arith);
    while hi - lo > 1
        invariant
            lo < hi <= limit,
            den > 0,
            lo * lo * den <= num,
            num < hi * hi * den,
        decreases hi - lo,
    {
        let mid: u32 = lo + (hi - lo) / 2;
        assert(0 <= mid * mid * den <= 0xFFFF_FFFF * 0xFFFF_FFFF * 0xFFFF_FFFF_FFFF_FFFF)
            by (nonlinear_arith)
            requires
                0 <= mid <= 0xFFFF_FFFF,
                0 <= den <= 0xFFFF_FFFF_FFFF_FFFF,
        ;
        assert(0 <= mid * mid <= 0xFFFF_FFFF * 0xFFFF_FFFF) by (nonlinear_arith)
            requires
                0 <= mid <= 0xFFFF_FFFF,
        ;
        let square: u128 = (mid as u128) * (mid as u128) * (den as u128);
        if square <= num {
            lo = mid;
        } else {
            hi = mid;
        }
    }
    assert(hi == lo + 1);
    lo
}

/// Apply the pixel budget to a target size.
pub fn apply_budget(target: (u32, u32), budget: u64) -> (r: (u32, u32))
    ensures
        (r.0 as int, r.1 as int) == within_budget((target.0 as int, target.1 as int), budget as int),
{
    let (w, h) = target;
    proof {
        lemma_product_fits(w, h);
    }
    let pixels: u64 = (w as u64) * (h as u64);
    if pixels <= budget {
        return target;
    }
    assert(w >= 1 && h >= 1) by (nonlinear_arith)
        requires
            w * h > 0,
            w >= 0,
            h >= 0,
    ;
    assert(0 <= w * budget < w * w * h && 0 <= h * budget < h * h * w && w * w * h
        <= 0xFFFF_FFFF * 0xFFFF_FFFF * 0xFFFF_FFFF && h * h * w <= 0xFFFF_FFFF * 0xFFFF_FFFF
        * 0xFFFF_FFFF) by (nonlinear_arith)
        requires
            0 <= budget < w * h,
            1 <= w <= 0xFFFF_FFFF,
            1 <= h <= 0xFFFF_FFFF,
    ;
    let kw: u32 = floor_sqrt_ratio((w as u128) * (budget as u128), h as u64, w);
    let kh: u32 = floor_sqrt_ratio((h as u128) * (budget as u128), w as u64, h);
    proof {
        lemma_floor_sqrt_unique(kw as int, floor_sqrt(w * budget, h as int), w * budget, h as int);
        lemma_floor_sqrt_unique(kh as int, floor_sqrt(h * budget, w as int), h * budget, w as int);
    }
    (if kw < 1 { 1 } else { kw }, if kh < 1 { 1 } else { kh })
}

/// The budget never enlarges a target, and a target it shrinks holds at
/// most `budget` pixels unless a side had to be raised to one.
pub proof fn lemma_budget_shrinks(target: (u32, u32), budget: u64)
    requires
        target.0 * target.1 > budget,
    ensures
        ({
            let (w, h) = within_budget((target.0 as int, target.1 as int), budget as int);
            &&& 1 <= w <= target.0
            &&& 1 <= h <= target.1
            &&& (floor_sqrt(target.0 * budget, target.1 as int) >= 1 && floor_sqrt(
                target.1 * budget,
                target.0 as int,
            ) >= 1 ==> w * h <= budget)
        }),
{
    let tw = target.0 as int;
    let th = target.1 as int;
    let b = budget as int;
    assert(tw >= 1 && th >= 1) by (nonlinear_arith)
        requires
            tw * th > 0,
            tw >= 0,
            th >= 0,
    ;
    assert(0 <= tw * b < tw * tw * th && 0 <= th * b < th * th * tw) by (nonlinear_arith)
        requires
            0 <= b < tw * th,
            tw >= 1,
            th >= 1,
    ;
    lemma_floor_sqrt_exists(tw * b, th, tw);
    lemma_floor_sqrt_exists(th * b, tw, th);
    let kw = floor_sqrt(tw * b, th);
    let kh = floor_sqrt(th * b, tw);
    assert(kw < tw) by (nonlinear_arith)
        requires
            kw >= 0,
            kw * kw * th <= tw * b,
            b < tw * th,
            tw >= 1,
            th >= 1,
    ;
    assert(kh < th) by (nonlinear_arith)
        requires
            kh >= 0,
            kh * kh * tw <= th * b,
            b < tw * th,
            tw >= 1,
            th >= 1,
    ;
    if kw >= 1 && kh >= 1 {
        // (kw * kh)^2 * (tw * th) <= (tw * th) * b^2, hence kw * kh <= b.
        assert(kw * kh <= b) by (nonlinear_arith)
            requires
                kw >= 1,
                kh >= 1,
                kw * kw * th <= tw * b,
                kh * kh * tw <= th * b,
                tw >= 1,
                th >= 1,
                b >= 0,
        ;
    }
}

/// Every non-negative ratio below `limit * limit` has a rounded-down square
/// root below `limit`.
pub proof fn lemma_floor_sqrt_exists(num: int, den: int, limit: int)
    requires
        den > 0,
        limit >= 1,
        0 <= num < limit * limit * den,
    ensures
        is_floor_sqrt(floor_sqrt(num, den), num, den),
        floor_sqrt(num, den) < limit,
    decreases limit,
{
    if num >= (limit - 1) * (limit - 1) * den {
        assert(is_floor_sqrt(limit - 1, num, den));
        assert(limit >= 1);
        let k = floor_sqrt(num, den);
        lemma_floor_sqrt_unique(k, limit - 1, num, den);
    } else {
        assert(limit - 1 >= 1) by (nonlinear_arith)
            requires
                num >= 0,
                num < (limit - 1) * (limit - 1) * den,
                limit >= 1,
                den > 0,
        ;
        lemma_floor_sqrt_exists(num, den, limit - 1);
    }
}

/// The product of two 32-bit values fits in 64 bits.
pub proof fn lemma_product_fits(a: u32, b: u32)
    ensures
        0 <= a * b <= 0xFFFF_FFFE_0000_0001,
{
    assert(0 <= a * b <= 0xFFFF_FFFF * 0xFFFF_FFFF) by (nonlinear_arith)
        requires
            0 <= a <= 0xFFFF_FFFF,
            0 <= b <= 0xFFFF_FFFF,
    ;
}

/// Compute the render size of an image inside a pixel box.
pub fn compute_target(orig: (u32, u32), max: (u32, u32), fit_mode: FitMode) -> (r: (u32, u32))
    ensures
        (r.0 as int, r.1 as int) == target_size(orig, max, fit_mode),
{
    let (orig_w, orig_h) = orig;
    let (max_w, max_h) = max;
    let shrink_only: bool = match fit_mode {
        FitMode::Normal => true,
        FitMode::Fit => false,
    };
    if shrink_only && orig_w <= max_w && orig_h <= max_h {
        return (orig_w, orig_h);
    }
    proof {
        lemma_contained_within(orig, max);
    }
    proof {
        lemma_product_fits(max_w, orig_h);
        lemma_product_fits(max_h, orig_w);
        lemma_product_fits(orig_w, max_w);
        lemma_product_fits(orig_w, max_h);
        lemma_product_fits(orig_h, max_w);
        lemma_product_fits(orig_h, max_h);
    }
    let by_width: bool = orig_h == 0 || (orig_w != 0 && (max_w as u64) * (orig_h as u64) <= (
    max_h as u64) * (orig_w as u64));
    let (num, den): (u64, u64) = if by_width {
        if orig_w == 0 {
            (0, 1)
        } else {
            (max_w as u64, orig_w as u64)
        }
    } else {
        (max_h as u64, orig_h as u64)
    };
    assert(orig_w * 0 == 0 && orig_h * 0 == 0);
    let scaled_w: u64 = ((orig_w as u64) * num) / den;
    let scaled_h: u64 = ((orig_h as u64) * num) / den;
    let w: u32 = if scaled_w < 1 { 1 } else { scaled_w as u32 };
    let h: u32 = if scaled_h < 1 { 1 } else { scaled_h as u32 };
    (w, h)
}

} // verus!
