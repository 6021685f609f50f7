//! The frame builder: per-pixel iteration counts to a flat RGBA byte buffer.
//!
//! The buffer is row-major; pixel `p` occupies bytes `4*p .. 4*p+4` as
//! `(R, G, B, 255)`, with the color determined by `pixel_color`. The
//! predicate `frame_of` pins every byte of the buffer, so the buffer is a
//! function of the counts alone: `lemma_frame_deterministic` states that.

use vstd::prelude::*;
use vstd::arithmetic::div_mod::lemma_fundamental_div_mod;
use vstd::arithmetic::div_mod::lemma_mod_bound;
use crate::color::Color;
use crate::color::pixel_color;

verus! {

/// The iteration cap used for every rendered frame.
pub const MAX_ITERATIONS: u32 = 200;

/// Bytes `4*p .. 4*p+4` of `s` hold the color of the pixel with iteration
/// count `counts[p]`, with alpha 255.
pub open spec fn pixel_bytes_ok(max: int, counts: Seq<u32>, s: Seq<u8>, p: int) -> bool {
    let c = pixel_color(max, counts[p] as int);
    &&& s[4 * p] == c.r
    &&& s[4 * p + 1] == c.g
    &&& s[4 * p + 2] == c.b
    &&& s[4 * p + 3] == 255u8
}

/// `s` is exactly the frame buffer for the per-pixel iteration counts
/// `counts` under cap `max`: 4 bytes per count, every pixel's bytes pinned.
pub open spec fn frame_of(max: int, counts: Seq<u32>, s: Seq<u8>) -> bool {
    &&& s.len() == counts.len() * 4
    &&& forall|p: int| 0 <= p < counts.len() ==> #[trigger] pixel_bytes_ok(max, counts, s, p)
}

/// Build the frame buffer from the per-pixel iteration counts, row-major:
/// `counts[i * width + j]` is the count of the pixel in row `i`, column `j`,
/// and its 4 output bytes are `(R, G, B, 255)`.
pub fn get_pixels(width: u32, height: u32, counts: &Vec<u32>) -> (pixels: Vec<u8>)
    requires
        counts@.len() == (width as int) * (height as int),
        forall|p: int| 0 <= p < counts@.len() ==> #[trigger] counts@[p] <= MAX_ITERATIONS,
    ensures
        frame_of(MAX_ITERATIONS as int, counts@, pixels@),
        pixels@.len() == (width as int) * (height as int) * 4,
{
    let mut pixels: Vec<u8> = Vec::new();
    let n: usize = counts.len();
    let mut p: usize = 0;
    while p < n
        invariant
            n == counts@.len(),
            p <= n,
            pixels@.len() == 4 * p,
            forall|q: int| 0 <= q < counts@.len() ==> #[trigger] counts@[q] <= MAX_ITERATIONS,
            forall|q: int| 0 <= q < p ==> #[trigger] pixel_bytes_ok(
                MAX_ITERATIONS as int,
                counts@,
                pixels@,
                q,
            ),
        decreases n - p,
    {
        let it: u32 = counts[p];
        let c: Color = Color::from_iterations(MAX_ITERATIONS, it);
        let ghost before = pixels@;
        pixels.push(c.r);
        pixels.push(c.g);
        pixels.push(c.b);
        pixels.push(255);
        proof {
            assert(c == pixel_color(MAX_ITERATIONS as int, it as int));
            assert forall|q: int| 0 <= q < p + 1 implies #[trigger] pixel_bytes_ok(
                MAX_ITERATIONS as int,
                counts@,
                pixels@,
                q,
            ) by {
                if q < p {
                    assert(pixel_bytes_ok(MAX_ITERATIONS as int, counts@, before, q));
                    assert(4 * q + 3 < before.len());
                } else {
                    assert(pixels@[4 * q] == c.r);
                }
            }
        }
        p = p + 1;
    }
    pixels
}

/// Every alpha byte of a frame buffer is 255: the bytes at offsets
/// congruent to 3 modulo 4 all hold 255.
pub proof fn lemma_alpha_invariant(max: int, counts: Seq<u32>, s: Seq<u8>)
    requires
        frame_of(max, counts, s),
    ensures
        forall|k: int| 0 <= k < s.len() && k % 4 == 3 ==> s[k] == 255u8,
{
    assert forall|k: int| 0 <= k < s.len() && k % 4 == 3 implies s[k] == 255u8 by {
        let p = k / 4;
        lemma_fundamental_div_mod(k, 4);
        assert(k == 4 * p + 3);
        assert(0 <= p < counts.len());
        assert(pixel_bytes_ok(max, counts, s, p));
    }
}

/// Row-major placement: in a frame of `width * height` counts, the pixel in
/// row `i`, column `j` occupies bytes `4 * (i * width + j) ..` of the buffer,
/// wherever in the raster it lies.
pub proof fn lemma_row_major_offset(
    max: int,
    counts: Seq<u32>,
    s: Seq<u8>,
    width: int,
    height: int,
    i: int,
    j: int,
)
    requires
        frame_of(max, counts, s),
        counts.len() == width * height,
        0 <= i < height,
        0 <= j < width,
    ensures
        0 <= i * width + j < counts.len(),
        pixel_bytes_ok(max, counts, s, i * width + j),
{
    assert(0 <= i * width) by (nonlinear_arith)
        requires
            0 <= i,
            0 < width,
    ;
    assert(i * width + j < width * height) by (nonlinear_arith)
        requires
            0 <= i < height,
            0 <= j < width,
    ;
    assert(pixel_bytes_ok(max, counts, s, i * width + j));
}

/// A frame buffer is a function of the counts alone: two buffers built from
/// the same counts are byte-identical.
pub proof fn lemma_frame_deterministic(max: int, counts: Seq<u32>, s1: Seq<u8>, s2: Seq<u8>)
    requires
        frame_of(max, counts, s1),
        frame_of(max, counts, s2),
    ensures
        s1 == s2,
{
    assert forall|k: int| 0 <= k < s1.len() implies s1[k] == s2[k] by {
        let p = k / 4;
        lemma_fundamental_div_mod(k, 4);
        lemma_mod_bound(k, 4);
        assert(k == 4 * p + (k % 4));
        assert(0 <= p < counts.len());
        assert(pixel_bytes_ok(max, counts, s1, p));
        assert(pixel_bytes_ok(max, counts, s2, p));
    }
    assert(s1 =~= s2);
}

} // verus!
