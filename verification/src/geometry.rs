//! Pure resizing and cropping arithmetic for the image pipeline: the
//! resize-if-oversized policy for the main image and the center square crop
//! used for thumbnails.

use vstd::arithmetic::div_mod::{
    lemma_div_is_ordered, lemma_div_pos_is_pos, lemma_fundamental_div_mod, lemma_mod_bound,
};
use vstd::prelude::*;

verus! {

/// Cap, in pixels, on either dimension of the stored main image.
pub const IMAGE_SIZE: u32 = 1024;

/// Side length, in pixels, of the square thumbnail.
pub const THUMB_SIZE: u32 = 128;

/// The scaled length of the shorter side when the longer side (of length
/// `long`) is brought down to `cap`: `short * cap / long`, floored, but never
/// below one pixel.
pub open spec fn scaled_side(short: u32, long: u32, cap: u32) -> u32 {
    let s = ((short as int) * (cap as int)) / (long as int);
    if s < 1 {
        1u32
    } else {
        s as u32
    }
}

/// Target dimensions of the main image: unchanged when both sides are within
/// `cap`; otherwise scaled down preserving the aspect ratio so that the longer
/// side equals `cap`.
pub open spec fn fit_dims(w: u32, h: u32, cap: u32) -> (u32, u32) {
    if w <= cap && h <= cap {
        (w, h)
    } else if w >= h {
        (cap, scaled_side(h, w, cap))
    } else {
        (scaled_side(w, h, cap), cap)
    }
}

proof fn lemma_scaled_side_bounds(short: u32, long: u32, cap: u32)
    requires
        1 <= short <= long,
        1 <= cap < long,
    ensures
        1 <= scaled_side(short, long, cap) <= cap,
        -(long as int) < (short as int) * (cap as int) - (scaled_side(short, long, cap) as int) * (
        long as int) < (long as int),
{
    assert(1 <= (short as int) * (cap as int)) by (nonlinear_arith)
        requires
            1 <= short && 1 <= cap,
    ;
    assert((short as int) * (cap as int) <= (long as int) * (cap as int)) by (nonlinear_arith)
        requires
            short <= long && 1 <= cap,
    ;
    let p = (short as int) * (cap as int);
    let q = p / (long as int);
    lemma_fundamental_div_mod(p, long as int);
    lemma_mod_bound(p, long as int);
    lemma_div_pos_is_pos(p, long as int);
    lemma_div_is_ordered(p, (long as int) * (cap as int), long as int);
    assert((long as int) * (cap as int) / (long as int) == cap) by (nonlinear_arith)
        requires
            1 <= long,
    ;
    assert((long as int) * q == q * (long as int)) by (nonlinear_arith);
    if q < 1 {
        // `short * cap` is smaller than `long`, so the floored quotient is
        // zero and the result is bumped to one pixel.
        assert(scaled_side(short, long, cap) == 1);
        assert(q == 0);
        assert((long as int) * 0 == 0) by (nonlinear_arith);
        assert(p == p % (long as int));
    } else {
        assert(scaled_side(short, long, cap) as int == q);
        assert(p - q * (long as int) == p % (long as int));
    }
}

/// The policy keeps images that already fit: within the cap, dimensions are
/// returned unchanged (no upscaling).
pub proof fn lemma_fit_keeps_small_dims(w: u32, h: u32, cap: u32)
    requires
        w <= cap,
        h <= cap,
    ensures
        fit_dims(w, h, cap) == (w, h),
{
}

/// An oversized image is brought down so that its longer side equals `cap`,
/// the shorter side lands in `1..=cap`, and the aspect ratio is preserved
/// within one rounding step: the cross products of the old and new dimensions
/// differ by less than one multiple of the longer side.
pub proof fn lemma_fit_caps_oversized(w: u32, h: u32, cap: u32)
    requires
        1 <= w,
        1 <= h,
        1 <= cap,
        w > cap || h > cap,
    ensures
        ({
            let (rw, rh) = fit_dims(w, h, cap);
            &&& 1 <= rw <= cap
            &&& 1 <= rh <= cap
            &&& (if w >= h {
                rw == cap && -(w as int) < (h as int) * (cap as int) - (rh as int) * (w as int) < (
                w as int)
            } else {
                rh == cap && -(h as int) < (w as int) * (cap as int) - (rw as int) * (h as int) < (
                h as int)
            })
        }),
{
    if w >= h {
        lemma_scaled_side_bounds(h, w, cap);
    } else {
        lemma_scaled_side_bounds(w, h, cap);
    }
}

/// Compute the main image's target dimensions under the resize policy.
pub fn fit_within(w: u32, h: u32, cap: u32) -> (r: (u32, u32))
    requires
        1 <= w,
        1 <= h,
        1 <= cap,
    ensures
        r == fit_dims(w, h, cap),
        1 <= r.0 <= w,
        1 <= r.1 <= h,
        r.0 <= cap || r.0 == w,
        r.1 <= cap || r.1 == h,
{
    if w <= cap && h <= cap {
        (w, h)
    } else if w >= h {
        proof {
            assert((h as int) * (cap as int) <= 0xffff_ffff * 0xffff_ffff) by (nonlinear_arith)
                requires
                    h <= 0xffff_ffffu32 && cap <= 0xffff_ffffu32,
            ;
            lemma_scaled_side_bounds(h, w, cap);
        }
        let s = ((h as u64) * (cap as u64)) / (w as u64);
        assert(s == (h as int) * (cap as int) / (w as int));
        let side = if s < 1 {
            1u32
        } else {
            s as u32
        };
        assert(side == scaled_side(h, w, cap));
        assert(side <= h) by {
            lemma_side_at_most_short(h, w, cap);
        }
        (cap, side)
    } else {
        proof {
            assert((w as int) * (cap as int) <= 0xffff_ffff * 0xffff_ffff) by (nonlinear_arith)
                requires
                    w <= 0xffff_ffffu32 && cap <= 0xffff_ffffu32,
            ;
            lemma_scaled_side_bounds(w, h, cap);
        }
        let s = ((w as u64) * (cap as u64)) / (h as u64);
        assert(s == (w as int) * (cap as int) / (h as int));
        let side = if s < 1 {
            1u32
        } else {
            s as u32
        };
        assert(side == scaled_side(w, h, cap));
        assert(side <= w) by {
            lemma_side_at_most_short(w, h, cap);
        }
        (side, cap)
    }
}

proof fn lemma_side_at_most_short(short: u32, long: u32, cap: u32)
    requires
        1 <= short <= long,
        1 <= cap < long,
    ensures
        scaled_side(short, long, cap) <= short,
{
    assert((short as int) * (cap as int) <= (short as int) * (long as int)) by (nonlinear_arith)
        requires
            cap <= long && 1 <= short,
    ;
    let p = (short as int) * (cap as int);
    lemma_div_is_ordered(p, (short as int) * (long as int), long as int);
    assert((short as int) * (long as int) / (long as int) == short) by (nonlinear_arith)
        requires
            1 <= long,
    ;
}

/// The largest centered square inside a `w` by `h` image: its left and top
/// offsets and its side length, the shorter of the two dimensions.
pub open spec fn center_square(w: u32, h: u32) -> (u32, u32, u32) {
    if h >= w {
        (0u32, ((h - w) / 2) as u32, w)
    } else {
        ((((w - h) / 2) as u32), 0u32, h)
    }
}

/// Compute the center square crop of a `w` by `h` image, keeping the middle
/// band of the longer axis.
pub fn center_crop(w: u32, h: u32) -> (r: (u32, u32, u32))
    requires
        1 <= w,
        1 <= h,
    ensures
        r == center_square(w, h),
        r.0 + r.2 <= w,
        r.1 + r.2 <= h,
        1 <= r.2,
        r.2 == if w <= h {
            w
        } else {
            h
        },
{
    if h >= w {
        (0, (h - w) / 2, w)
    } else {
        ((w - h) / 2, 0, h)
    }
}

} // verus!
