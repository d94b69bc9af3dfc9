//! Colors and the resolution of accumulated pixel samples into
//! 8-bit channel values.
//!
//! A color is a vector of channel scalars in `[0, ONE]`. Rendering
//! accumulates one color per sample; `resolve_color` averages the
//! accumulated sum, gamma-corrects each channel by a square root, and
//! clamps and scales it to `[0, 255]`. The printing of the triple is
//! the caller's business.

use vstd::prelude::*;

use crate::fixed::{fx_div, fx_div_s, fx_sqrt, fx_sqrt_i, fx_max, fx_max_i, fx_min, fx_min_i, ONE};
use crate::vector::Vector3D;

verus! {

/// A color: red, green and blue channel scalars.
pub type Color = Vector3D;

/// The largest channel value that still maps below 256: the clamp
/// bound `0.999` in fixed point.
pub const CHANNEL_CLAMP: i64 = 65470;

/// The average of an accumulated channel over `samples` draws.
pub open spec fn channel_average_s(sum: i64, samples: i64) -> i64 {
    fx_div_s(sum as int, samples * ONE) as i64
}

/// One resolved channel: average, gamma-correct by square root, clamp
/// to `[0, CHANNEL_CLAMP]` and scale to an 8-bit value.
pub open spec fn resolve_channel_s(sum: i64, samples: i64) -> i64 {
    let avg = channel_average_s(sum, samples);
    let gamma = fx_sqrt_i(fx_max_i(avg, 0));
    let clamped = fx_min_i(fx_max_i(gamma, 0), CHANNEL_CLAMP);
    ((clamped as int) * 256 / (ONE as int)) as i64
}

/// Resolve one accumulated channel to an 8-bit value.
pub fn resolve_channel(sum: i64, samples: i64) -> (r: i64)
    requires
        1 <= samples <= 0x7fffffff,
    ensures
        r == resolve_channel_s(sum, samples),
        0 <= r <= 255,
{
    let avg: i64 = fx_div(sum, samples * ONE);
    let gamma: i64 = fx_sqrt(fx_max(avg, 0));
    let clamped: i64 = fx_min(fx_max(gamma, 0), CHANNEL_CLAMP);
    proof {
        crate::fixed::lemma_fx_sqrt_i_bounds(fx_max_i(avg, 0));
    }
    let r: i64 = ((clamped as u64) * 256 / 65536) as i64;
    proof {
        assert(r as int == (clamped as int) * 256 / (ONE as int));
        assert((clamped as int) * 256 <= 65470 * 256);
        assert(r <= 255) by {
            assert(65470 * 256 / 65536 == 255);
            vstd::arithmetic::div_mod::lemma_div_is_ordered(
                (clamped as int) * 256,
                65470int * 256,
                65536,
            );
        }
        vstd::arithmetic::div_mod::lemma_div_pos_is_pos((clamped as int) * 256, 65536);
    }
    r
}

/// Resolve an accumulated pixel color to an 8-bit triple.
pub fn resolve_color(pixel_color: &Color, samples_per_pixel: usize) -> (r: (i64, i64, i64))
    requires
        1 <= samples_per_pixel <= 0x7fffffff,
    ensures
        r.0 == resolve_channel_s(pixel_color.x, samples_per_pixel as i64),
        r.1 == resolve_channel_s(pixel_color.y, samples_per_pixel as i64),
        r.2 == resolve_channel_s(pixel_color.z, samples_per_pixel as i64),
        0 <= r.0 <= 255,
        0 <= r.1 <= 255,
        0 <= r.2 <= 255,
{
    let s: i64 = samples_per_pixel as i64;
    (
        resolve_channel(pixel_color.x, s),
        resolve_channel(pixel_color.y, s),
        resolve_channel(pixel_color.z, s),
    )
}

/// Averaging a constant is the identity: a channel that accumulated
/// the same value over every sample resolves exactly as a single
/// sample of that value does.
pub proof fn lemma_average_constant(c: i64, n: i64)
    requires
        1 <= n <= 0x7fffffff,
        0 <= c <= ONE,
    ensures
        channel_average_s((n * c) as i64, n) == channel_average_s(c, 1),
        resolve_channel_s((n * c) as i64, n) == resolve_channel_s(c, 1),
{
    let s = (n as int) * (c as int);
    let b = (n as int) * (ONE as int);
    assert(0 <= s <= 0x7fffffffffffffff) by (nonlinear_arith)
        requires
            1 <= n <= 0x7fffffff,
            0 <= c <= 65536,
            s == (n as int) * (c as int),
    ;
    assert(65536 <= b <= 0x80000000000000) by (nonlinear_arith)
        requires
            1 <= n <= 0x7fffffff,
            b == (n as int) * 65536,
    ;
    assert(s * 65536 == (c as int) * b) by (nonlinear_arith)
        requires
            s == (n as int) * (c as int),
            b == (n as int) * 65536,
    ;
    assert((c as int) * b >= 0) by (nonlinear_arith)
        requires
            c >= 0,
            b >= 0,
    ;
    assert(((c as int) * b) / b == c) by {
        vstd::arithmetic::div_mod::lemma_div_multiples_vanish(c as int, b);
        assert(b * (c as int) == (c as int) * b) by (nonlinear_arith);
    }
    assert(((n * c) as i64) as int == s);
    assert(crate::fixed::tdiv(s * (ONE as int), b) == c);
    assert(channel_average_s((n * c) as i64, n) == c);
    assert((c as int) * 65536 / 65536 == c) by {
        vstd::arithmetic::div_mod::lemma_div_multiples_vanish(c as int, 65536);
        assert(65536 * (c as int) == (c as int) * 65536) by (nonlinear_arith);
    }
    assert(channel_average_s(c, 1) == c);
}

} // verus!
