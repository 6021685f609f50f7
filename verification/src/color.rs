//! The gradient color mapper: iteration count to RGB color.
//!
//! The palette is a fixed sequence of 7 stops (blue, pink, red, yellow,
//! green, white, black) spanning `[0, max_iterations)` in 6 equal-width
//! bands; the final band absorbs any remainder through a clamp on the
//! band index. Interpolation between two stops is exact: each channel is
//! the linear blend truncated toward zero, stated over the integers.

use vstd::prelude::*;
use vstd::arithmetic::div_mod::lemma_multiply_divide_lt;
use vstd::arithmetic::mul::lemma_mul_inequality;

verus! {

/// One RGB color; the alpha channel is not stored, output pixels always
/// carry alpha 255.
#[derive(Clone, Copy, Debug, PartialEq, Eq, Structural)]
pub struct Color {
    pub r: u8,
    pub g: u8,
    pub b: u8,
}

/// The number of gradient bands: one fewer than the number of palette stops.
pub const SEGMENTS: u32 = 6;

/// The fixed palette stop `k`, for `0 <= k <= 6`.
pub open spec fn palette_stop(k: int) -> Color {
    if k == 0 {
        Color { r: 0, g: 0, b: 255 }
    } else if k == 1 {
        Color { r: 255, g: 0, b: 255 }
    } else if k == 2 {
        Color { r: 255, g: 0, b: 0 }
    } else if k == 3 {
        Color { r: 255, g: 255, b: 0 }
    } else if k == 4 {
        Color { r: 0, g: 255, b: 0 }
    } else if k == 5 {
        Color { r: 255, g: 255, b: 255 }
    } else {
        Color { r: 0, g: 0, b: 0 }
    }
}

/// Linear interpolation of one channel from `s` toward `e`, at position
/// `m / steps` within the band, truncated toward zero. For `0 <= m < steps`
/// this is `trunc(s + m * (e - s) / steps)`: integer (floor) division when
/// the channel increases, and a ceiling subtraction when it decreases, since
/// the blended value is nonnegative.
pub open spec fn lerp_channel(s: int, e: int, m: int, steps: int) -> int {
    if e >= s {
        s + m * (e - s) / steps
    } else {
        s - (m * (s - e) + steps - 1) / steps
    }
}

/// The band that iteration count `it` falls in, clamped so that the last
/// band absorbs the remainder when `max` is not a multiple of `SEGMENTS`.
pub open spec fn segment_of(max: int, it: int) -> int {
    let steps = max / (SEGMENTS as int);
    if it / steps < (SEGMENTS as int) - 1 {
        it / steps
    } else {
        (SEGMENTS as int) - 1
    }
}

/// The gradient color for iteration count `it` under cap `max`:
/// interpolate each channel between the two stops bounding `it`'s band.
pub open spec fn color_at(max: int, it: int) -> Color {
    let steps = max / (SEGMENTS as int);
    let seg = segment_of(max, it);
    let m = it % steps;
    let s = palette_stop(seg);
    let e = palette_stop(seg + 1);
    Color {
        r: lerp_channel(s.r as int, e.r as int, m, steps) as u8,
        g: lerp_channel(s.g as int, e.g as int, m, steps) as u8,
        b: lerp_channel(s.b as int, e.b as int, m, steps) as u8,
    }
}

/// The color a pixel gets from its iteration count: pure black for a point
/// that never escaped (`it == max`), the gradient color otherwise.
pub open spec fn pixel_color(max: int, it: int) -> Color {
    if it == max {
        Color { r: 0, g: 0, b: 0 }
    } else {
        color_at(max, it)
    }
}

/// The band index is always a valid palette index with a successor:
/// clamping keeps it below `SEGMENTS`, so `palette_stop(seg + 1)` never
/// reads past the last stop.
pub proof fn lemma_segment_in_range(max: int, it: int)
    requires
        max >= SEGMENTS,
        it >= 0,
    ensures
        0 <= segment_of(max, it) < SEGMENTS,
{
}

impl Color {
    /// Pure black, the in-set sentinel color.
    pub fn black() -> (c: Color)
        ensures
            c == (Color { r: 0, g: 0, b: 0 }),
    {
        Color { r: 0, g: 0, b: 0 }
    }

    /// The color for `iterations` under the cap `max_iterations`: pure
    /// black for a point that reached the cap without escaping, otherwise
    /// exact truncating interpolation between the two palette stops
    /// bounding its band.
    pub fn from_iterations(max_iterations: u32, iterations: u32) -> (c: Color)
        requires
            max_iterations >= SEGMENTS,
        ensures
            c == pixel_color(max_iterations as int, iterations as int),
    {
        if iterations == max_iterations {
            return Color { r: 0, g: 0, b: 0 };
        }
        let steps: u32 = max_iterations / SEGMENTS;
        let band: u32 = iterations / steps;
        let seg: u32 = if band < SEGMENTS - 1 {
            band
        } else {
            SEGMENTS - 1
        };
        let m: u32 = iterations % steps;
        let start = stop(seg);
        let end = stop(seg + 1);
        Color {
            r: lerp(start.r, end.r, m, steps),
            g: lerp(start.g, end.g, m, steps),
            b: lerp(start.b, end.b, m, steps),
        }
    }
}

/// The fixed palette stop `k` as a value.
fn stop(k: u32) -> (c: Color)
    requires
        k <= SEGMENTS,
    ensures
        c == palette_stop(k as int),
{
    match k {
        0 => Color { r: 0, g: 0, b: 255 },
        1 => Color { r: 255, g: 0, b: 255 },
        2 => Color { r: 255, g: 0, b: 0 },
        3 => Color { r: 255, g: 255, b: 0 },
        4 => Color { r: 0, g: 255, b: 0 },
        5 => Color { r: 255, g: 255, b: 255 },
        _ => Color { r: 0, g: 0, b: 0 },
    }
}

/// One channel of the truncating interpolation, in 64-bit arithmetic so the
/// products cannot overflow.
fn lerp(s: u8, e: u8, m: u32, steps: u32) -> (v: u8)
    requires
        1 <= steps,
        m < steps,
    ensures
        v as int == lerp_channel(s as int, e as int, m as int, steps as int),
{
    let steps64: u64 = steps as u64;
    let m64: u64 = m as u64;
    if e >= s {
        let diff: u64 = (e - s) as u64;
        proof {
            assert((m64 as int) * (diff as int) < 0x1_0000_0000 * 256) by (nonlinear_arith)
                requires
                    m64 < 0x1_0000_0000,
                    diff < 256,
            ;
        }
        let num: u64 = m64 * diff;
        let q: u64 = num / steps64;
        proof {
            lemma_mul_inequality(m as int, steps as int - 1, diff as int);
            assert(num as int <= (steps as int - 1) * (diff as int));
            if diff > 0 {
                assert((steps as int - 1) * (diff as int) < (steps as int) * (diff as int))
                    by (nonlinear_arith)
                    requires
                        steps >= 1,
                        diff > 0,
                ;
                lemma_multiply_divide_lt(num as int, steps as int, diff as int);
                assert(q < diff);
            } else {
                assert(num as int == (m64 as int) * 0);
                assert(num == 0) by (nonlinear_arith)
                    requires
                        num as int == (m64 as int) * 0,
                ;
            }
            assert(q <= diff);
        }
        s + q as u8
    } else {
        let diff: u64 = (s - e) as u64;
        proof {
            assert((m64 as int) * (diff as int) < 0x1_0000_0000 * 256) by (nonlinear_arith)
                requires
                    m64 < 0x1_0000_0000,
                    diff < 256,
            ;
        }
        let num: u64 = m64 * diff + (steps64 - 1);
        let q: u64 = num / steps64;
        proof {
            lemma_mul_inequality(m as int, steps as int - 1, diff as int);
            assert(num < (steps as int) * (diff as int + 1)) by (nonlinear_arith)
                requires
                    steps >= 1,
                    m64 * diff <= (steps as int - 1) * (diff as int),
                    num == m64 * diff + (steps as int - 1),
            ;
            lemma_multiply_divide_lt(num as int, steps as int, diff as int + 1);
            assert(q <= diff);
        }
        s - q as u8
    }
}

} // verus!
