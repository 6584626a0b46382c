//! Status LED: a slow rainbow on the onboard WS2812, with the colour computed
//! by `smart_leds`' HSV conversion.
//!
//! The LED worker starts at hue 0 and every [`FRAME_MS`] writes
//! [`rainbow_color`] of the current hue, then moves on with [`next_hue`].

use smart_leds::hsv::{hsv2rgb, Hsv};
use vstd::prelude::*;

verus! {

/// Saturation of the rainbow (full).
pub const LED_SAT: u8 = 255;
/// Brightness of the rainbow (dim, for a bedside LED).
pub const LED_VAL: u8 = 16;
/// Hue advance per frame.
pub const HUE_STEP: u8 = 2;
/// Frame period (ms).
pub const FRAME_MS: u64 = 20;

/// The `(r, g, b)` colour `smart_leds::hsv::hsv2rgb` computes for an 8-bit
/// HSV colour: the hue's position `f` within its sixth of the wheel, the
/// three levels `p`, `q`, `t` derived from value and saturation, and the
/// sixth of the wheel choosing which channel gets which level.
pub open spec fn hsv_rgb(hue: u8, sat: u8, val: u8) -> (u8, u8, u8) {
    let v = val as int;
    let s = sat as int;
    let f = ((hue as int * 2) % 85) * 3;
    let p = (v * (255 - s) / 255) as u8;
    let q = (v * (255 - (s * f) / 255) / 255) as u8;
    let t = (v * (255 - (s * (255 - f)) / 255) / 255) as u8;
    let v = val;
    if hue <= 42 {
        (v, t, p)
    } else if hue <= 84 {
        (q, v, p)
    } else if hue <= 127 {
        (p, v, t)
    } else if hue <= 169 {
        (p, q, v)
    } else if hue <= 212 {
        (t, p, v)
    } else if hue <= 254 {
        (v, p, q)
    } else {
        (v, t, p)
    }
}

/// `smart_leds::hsv::hsv2rgb`: converts an 8-bit HSV colour to RGB, by the
/// integer arithmetic that [`hsv_rgb`] restates (all in `u16`, no value
/// above 65025, so nothing overflows).
#[verifier::external_body]
fn hsv_to_rgb(hue: u8, sat: u8, val: u8) -> (c: (u8, u8, u8))
    ensures
        c == hsv_rgb(hue, sat, val),
{
    let c = hsv2rgb(Hsv { hue, sat, val });
    (c.r, c.g, c.b)
}

/// The rainbow colour shown at `hue`: full saturation, low brightness.
pub fn rainbow_color(hue: u8) -> (c: (u8, u8, u8))
    ensures
        c == hsv_rgb(hue, LED_SAT, LED_VAL),
{
    hsv_to_rgb(hue, LED_SAT, LED_VAL)
}

/// The hue of the next frame (wrapping around the colour wheel).
pub fn next_hue(hue: u8) -> (h: u8)
    ensures
        h == (hue + HUE_STEP) % 256,
{
    hue.wrapping_add(HUE_STEP)
}

/// The hue after `n` frames starting from `hue`.
pub open spec fn hue_after(hue: u8, n: nat) -> u8
    decreases n,
{
    if n == 0 {
        hue
    } else {
        ((hue_after(hue, (n - 1) as nat) + HUE_STEP) % 256) as u8
    }
}

proof fn lemma_hue_after_closed(hue: u8, n: nat)
    ensures
        hue_after(hue, n) == (hue + 2 * n) % 256,
    decreases n,
{
    if n > 0 {
        lemma_hue_after_closed(hue, (n - 1) as nat);
    }
}

/// The rainbow repeats: after 128 frames the hue is back where it started,
/// and not sooner for any step count below 128.
pub proof fn lemma_rainbow_period(hue: u8, n: nat)
    requires
        0 < n < 128,
    ensures
        hue_after(hue, 128) == hue,
        hue_after(hue, n) != hue,
{
    lemma_hue_after_closed(hue, 128);
    lemma_hue_after_closed(hue, n);
}

proof fn lemma_level_at_most(v: int, a: int)
    requires
        0 <= v <= 255,
        0 <= a <= 255,
    ensures
        0 <= v * a / 255 <= v,
{
    assert(0 <= v * a <= v * 255) by (nonlinear_arith)
        requires
            0 <= v <= 255,
            0 <= a <= 255,
    ;
}

/// Every channel of an HSV colour is at most its value, so the dim rainbow
/// never drives any channel above [`LED_VAL`].
pub proof fn lemma_channels_within_value(hue: u8, sat: u8, val: u8)
    ensures
        hsv_rgb(hue, sat, val).0 <= val,
        hsv_rgb(hue, sat, val).1 <= val,
        hsv_rgb(hue, sat, val).2 <= val,
{
    let v = val as int;
    let s = sat as int;
    let f = ((hue as int * 2) % 85) * 3;
    assert(0 <= f <= 252);
    assert(0 <= s * f <= 255 * 252) by (nonlinear_arith)
        requires
            0 <= s <= 255,
            0 <= f <= 252,
    ;
    assert(0 <= s * (255 - f) <= 255 * 255) by (nonlinear_arith)
        requires
            0 <= s <= 255,
            0 <= f <= 252,
    ;
    lemma_level_at_most(v, 255 - s);
    lemma_level_at_most(v, 255 - (s * f) / 255);
    lemma_level_at_most(v, 255 - (s * (255 - f)) / 255);
}

} // verus!
