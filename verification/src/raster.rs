//! Rasterization: pixel-to-plane projection, supersampled averaging, and
//! whole-frame rendering.
//!
//! Pixel `(x, y)`, taken relative to the canvas center, projects to the
//! complex point `(x / (w/4), y / (h/4))`: the visible window spans about
//! `[-2, 2]` on both axes. Each pixel is sampled on an `S x S` grid of
//! sub-pixel offsets, the normalized divergence values are averaged, and
//! the mean is scaled to one 8-bit channel, replicated into a grayscale
//! packed word. Every pixel is a pure function of `(x, y, depth)`, so rows
//! are rendered independently; `mandelbrot_to_buf` dispatches them across a
//! worker pool while `render_frame` is its sequential, fully verified twin.

use vstd::arithmetic::div_mod::lemma_fundamental_div_mod_converse;
use vstd::arithmetic::div_mod::lemma_multiply_divide_lt;
use vstd::prelude::*;

use rayon::iter::IndexedParallelIterator;
use rayon::iter::ParallelIterator;
use rayon::slice::ParallelSliceMut;

use crate::escape::{lemma_sample_num_lt, sample_num, sample_value};
use crate::fixed::{lemma_tdiv_bound, lemma_tdiv_zero, mul_div_trunc, tdiv, SCALE};
use crate::framebuffer::{pack_color, pack_gray, pack_rgb, MAX_DIM};

verus! {

/// Largest supersample factor accepted.
pub const MAX_SAMPLES: u32 = 256;

/// Largest iteration depth accepted: keeps every intermediate sum of the
/// averager inside 64 bits.
pub const MAX_DEPTH: u32 = 0x4000_0000;

/// Fixed-point coordinate of the centered pixel component `x` on a canvas
/// `dim` pixels wide: `x / (dim/4)`, truncated toward zero.
pub open spec fn proj(x: int, dim: int) -> int {
    tdiv(x * 4 * SCALE, dim)
}

/// Fixed-point sub-pixel offset of sub-sample `i` of `s` on a canvas `dim`
/// pixels wide: `(i/s - 1/2) / (dim/4)`, truncated toward zero.
pub open spec fn off(i: int, s: int, dim: int) -> int {
    tdiv((2 * i - s) * 2 * SCALE, s * dim)
}

/// Real part of the base complex point of the pixel in column `px`.
pub open spec fn base_re(px: int, w: int) -> int {
    proj(px - w / 2, w)
}

/// Imaginary part of the base complex point of the pixel in row `py`.
pub open spec fn base_im(py: int, h: int) -> int {
    proj(py - h / 2, h)
}

/// Divergence numerator of sub-sample `(i, j)` of the pixel whose base
/// point is `(cr, ci)`.
pub open spec fn subsample_num(
    cr: int,
    ci: int,
    w: int,
    h: int,
    s: int,
    m: nat,
    i: int,
    j: int,
) -> nat {
    sample_num(cr + off(i, s, w), ci + off(j, s, h), m)
}

/// Sum of the divergence numerators of the first `k` of the `s * s`
/// sub-samples, taken in row-major order of the offset grid.
pub open spec fn subsample_sum(cr: int, ci: int, w: int, h: int, s: int, m: nat, k: nat) -> nat
    decreases k,
{
    if k == 0 {
        0
    } else {
        let k1 = (k - 1) as nat;
        subsample_sum(cr, ci, w, h, s, m, k1) + subsample_num(
            cr,
            ci,
            w,
            h,
            s,
            m,
            k1 as int / s,
            k1 as int % s,
        )
    }
}

/// 8-bit channel value of the fraction `num / den`: `round(255 * num / den)`,
/// rounding half up.
pub open spec fn round255(num: nat, den: nat) -> int {
    (510 * num + den) as int / (2 * den) as int
}

/// Averaged 8-bit channel value of the pixel whose base point is
/// `(cr, ci)`: the mean of its `s * s` sub-sample values, scaled to 255.
pub open spec fn channel(cr: int, ci: int, w: int, h: int, s: int, m: nat) -> int {
    round255(subsample_sum(cr, ci, w, h, s, m, (s * s) as nat), (s * s * m) as nat)
}

/// Packed grayscale word of the pixel at column `px`, row `py`.
pub open spec fn pixel_word(px: int, py: int, w: int, h: int, m: nat, s: int) -> u32 {
    pack_gray(channel(base_re(px, w), base_im(py, h), w, h, s, m)) as u32
}

/// The full frame: one packed grayscale word per pixel, row-major.
pub open spec fn spec_frame(w: int, h: int, m: nat, s: int) -> Seq<u32> {
    Seq::new((w * h) as nat, |idx: int| pixel_word(idx % w, idx / w, w, h, m, s))
}

/// Projects one centered pixel component to its fixed-point plane
/// coordinate; a component within half the canvas lands within `[-2, 2]`.
pub fn project(x: i64, dim: usize) -> (r: i64)
    requires
        1 <= dim <= MAX_DIM,
        -(dim as int) <= 2 * x <= dim as int,
    ensures
        r == proj(x as int, dim as int),
        -2 * SCALE <= r <= 2 * SCALE,
{
    let r = mul_div_trunc(x, 4 * SCALE, dim as u64);
    proof {
        assert(-131072 * (dim as int) <= (x as int) * 262144 <= 131072 * (dim as int))
            by (nonlinear_arith)
            requires
                -(dim as int) <= 2 * x <= dim as int,
        {}
        lemma_tdiv_bound((x as int) * 262144, dim as int, 131072);
        assert((x as int) * 262144 == (x as int) * 4 * SCALE) by (nonlinear_arith);
    }
    r
}

/// Computes the fixed-point offset of sub-sample `i` of `s`; every offset
/// lies within half a window unit of the base point.
pub fn offset(i: u32, s: u32, dim: usize) -> (r: i64)
    requires
        1 <= s <= MAX_SAMPLES,
        i < s,
        1 <= dim <= MAX_DIM,
    ensures
        r == off(i as int, s as int, dim as int),
        -2 * SCALE <= r <= 2 * SCALE,
{
    let a: i64 = 2 * (i as i64) - (s as i64);
    proof {
        assert((s as u64) * (dim as u64) <= 256 * 46340) by (nonlinear_arith)
            requires
                s <= 256,
                dim <= 46340,
        {}
        assert((s as u64) * (dim as u64) >= 1) by (nonlinear_arith)
            requires
                s >= 1,
                dim >= 1,
        {}
    }
    let d: u64 = (s as u64) * (dim as u64);
    let r = mul_div_trunc(a, 2 * SCALE, d);
    proof {
        assert(-131072 * (d as int) <= (a as int) * 131072 <= 131072 * (d as int))
            by (nonlinear_arith)
            requires
                -(s as int) <= a <= s as int,
                d == (s as int) * (dim as int),
                1 <= s,
                1 <= dim,
        {}
        lemma_tdiv_bound((a as int) * 131072, d as int, 131072);
        assert((a as int) * 131072 == (2 * (i as int) - (s as int)) * 2 * SCALE)
            by (nonlinear_arith)
            requires
                a == 2 * (i as int) - (s as int),
        {}
    }
    r
}

/// The mean of the sub-sample numerators never reaches the depth itself.
proof fn lemma_subsample_sum_bound(cr: int, ci: int, w: int, h: int, s: int, m: nat, k: nat)
    requires
        1 <= m,
    ensures
        subsample_sum(cr, ci, w, h, s, m, k) <= k * (m - 1),
    decreases k,
{
    if k == 0 {
    } else {
        let k1 = (k - 1) as nat;
        lemma_subsample_sum_bound(cr, ci, w, h, s, m, k1);
        lemma_sample_num_lt(cr + off(k1 as int / s, s, w), ci + off(k1 as int % s, s, h), m);
        assert(k1 * (m - 1) + (m - 1) == k * (m - 1)) by (nonlinear_arith)
            requires
                k >= 1,
                k1 == k - 1,
        {}
    }
}

/// Evaluates the `s * s` sub-samples of the pixel whose base point is
/// `(cr, ci)` and returns the averaged 8-bit channel value.
pub fn average_channel(cr: i64, ci: i64, width: usize, height: usize, samples: u32, max_iter: u32)
    -> (r: u8)
    requires
        -2 * SCALE <= cr <= 2 * SCALE,
        -2 * SCALE <= ci <= 2 * SCALE,
        1 <= width <= MAX_DIM,
        1 <= height <= MAX_DIM,
        1 <= samples <= MAX_SAMPLES,
        1 <= max_iter <= MAX_DEPTH,
    ensures
        r == channel(cr as int, ci as int, width as int, height as int, samples as int,
            max_iter as nat),
{
    proof {
        assert(1 <= (samples as int) * (samples as int) <= 65536) by (nonlinear_arith)
            requires
                1 <= samples <= 256,
        {}
    }
    let total: u32 = samples * samples;
    let mut sum: u64 = 0;
    let mut k: u32 = 0;
    while k < total
        invariant
            0 <= k <= total,
            total == (samples as int) * (samples as int),
            1 <= total <= 65536,
            -2 * SCALE <= cr <= 2 * SCALE,
            -2 * SCALE <= ci <= 2 * SCALE,
            1 <= width <= MAX_DIM,
            1 <= height <= MAX_DIM,
            1 <= samples <= MAX_SAMPLES,
            1 <= max_iter <= MAX_DEPTH,
            sum == subsample_sum(cr as int, ci as int, width as int, height as int,
                samples as int, max_iter as nat, k as nat),
            sum <= (k as int) * (max_iter - 1),
        decreases total - k,
    {
        proof {
            assert(k / samples < samples && k % samples < samples) by (nonlinear_arith)
                requires
                    k < (samples as int) * (samples as int),
                    1 <= samples,
            {}
        }
        let i = k / samples;
        let j = k % samples;
        let oi = offset(i, samples, width);
        let oj = offset(j, samples, height);
        let v = sample_value(cr + oi, ci + oj, max_iter);
        proof {
            assert(sum + v <= (k as int + 1) * (max_iter - 1)) by (nonlinear_arith)
                requires
                    sum <= (k as int) * (max_iter - 1),
                    v <= max_iter - 1,
            {}
            assert((k as int + 1) * (max_iter - 1) <= 65536 * 0x3fff_ffff) by (nonlinear_arith)
                requires
                    k as int + 1 <= 65536,
                    0 <= max_iter - 1 <= 0x3fff_ffff,
            {}
        }
        sum = sum + (v as u64);
        k = k + 1;
    }
    proof {
        assert((total as u64) * (max_iter as u64) <= 65536 * 0x4000_0000) by (nonlinear_arith)
            requires
                total <= 65536,
                max_iter <= 0x4000_0000,
        {}
        assert((total as u64) * (max_iter as u64) >= 1) by (nonlinear_arith)
            requires
                total >= 1,
                max_iter >= 1,
        {}
        assert(sum <= (total as int) * (max_iter as int) - (total as int)) by (nonlinear_arith)
            requires
                sum <= (total as int) * (max_iter - 1),
        {}
    }
    let den: u64 = (total as u64) * (max_iter as u64);
    let num: u64 = 510 * sum + den;
    let q: u64 = num / (2 * den);
    proof {
        assert(num < (2 * den as int) * 256);
        lemma_multiply_divide_lt(num as int, 2 * den as int, 256);
        assert((samples as int) * (samples as int) * (max_iter as int) == (total as int) * (
        max_iter as int)) by (nonlinear_arith)
            requires
                total == (samples as int) * (samples as int),
        {}
    }
    q as u8
}

/// Renders one pixel: projects it, averages its sub-samples, and packs the
/// resulting grayscale channel into one color word.
pub fn render_pixel(px: usize, py: usize, width: usize, height: usize, max_iter: u32, samples: u32)
    -> (r: u32)
    requires
        px < width,
        py < height,
        1 <= width <= MAX_DIM,
        1 <= height <= MAX_DIM,
        1 <= samples <= MAX_SAMPLES,
        1 <= max_iter <= MAX_DEPTH,
    ensures
        r == pixel_word(px as int, py as int, width as int, height as int, max_iter as nat,
            samples as int),
{
    let x: i64 = px as i64 - (width / 2) as i64;
    let y: i64 = py as i64 - (height / 2) as i64;
    let cr = project(x, width);
    let ci = project(y, height);
    let v = average_channel(cr, ci, width, height, samples, max_iter);
    let w = pack_color(v, v, v);
    proof {
        assert(pack_gray(v as int) == pack_rgb(v as int, v as int, v as int));
        assert(w == pack_gray(channel(cr as int, ci as int, width as int, height as int,
            samples as int, max_iter as nat)) as u32);
    }
    w
}

/// Renders one full row of pixels, left to right.
pub fn render_row(py: usize, width: usize, height: usize, max_iter: u32, samples: u32) -> (row:
    Vec<u32>)
    requires
        py < height,
        1 <= width <= MAX_DIM,
        1 <= height <= MAX_DIM,
        1 <= samples <= MAX_SAMPLES,
        1 <= max_iter <= MAX_DEPTH,
    ensures
        row@.len() == width,
        forall|x: int|
            0 <= x < width ==> row@[x] == pixel_word(x, py as int, width as int, height as int,
                max_iter as nat, samples as int),
{
    let mut row: Vec<u32> = Vec::new();
    let mut px: usize = 0;
    while px < width
        invariant
            0 <= px <= width,
            py < height,
            1 <= width <= MAX_DIM,
            1 <= height <= MAX_DIM,
            1 <= samples <= MAX_SAMPLES,
            1 <= max_iter <= MAX_DEPTH,
            row@.len() == px,
            forall|x: int|
                0 <= x < px ==> row@[x] == pixel_word(x, py as int, width as int, height as int,
                    max_iter as nat, samples as int),
        decreases width - px,
    {
        let w = render_pixel(px, py, width, height, max_iter, samples);
        row.push(w);
        px = px + 1;
    }
    row
}

/// Renders the whole frame sequentially, row by row.
pub fn render_frame(width: usize, height: usize, max_iter: u32, samples: u32) -> (buf: Vec<u32>)
    requires
        1 <= width <= MAX_DIM,
        1 <= height <= MAX_DIM,
        1 <= samples <= MAX_SAMPLES,
        1 <= max_iter <= MAX_DEPTH,
    ensures
        buf@ == spec_frame(width as int, height as int, max_iter as nat, samples as int),
        buf@.len() == width * height,
{
    let mut buf: Vec<u32> = Vec::new();
    let mut py: usize = 0;
    while py < height
        invariant
            0 <= py <= height,
            1 <= width <= MAX_DIM,
            1 <= height <= MAX_DIM,
            1 <= samples <= MAX_SAMPLES,
            1 <= max_iter <= MAX_DEPTH,
            buf@.len() == py * width,
            forall|idx: int|
                0 <= idx < buf@.len() ==> buf@[idx] == pixel_word(idx % (width as int), idx / (
                width as int), width as int, height as int, max_iter as nat, samples as int),
        decreases height - py,
    {
        let mut px: usize = 0;
        while px < width
            invariant
                0 <= px <= width,
                py < height,
                1 <= width <= MAX_DIM,
                1 <= height <= MAX_DIM,
                1 <= samples <= MAX_SAMPLES,
                1 <= max_iter <= MAX_DEPTH,
                buf@.len() == py * width + px,
                forall|idx: int|
                    0 <= idx < buf@.len() ==> buf@[idx] == pixel_word(idx % (width as int), idx / (
                    width as int), width as int, height as int, max_iter as nat, samples as int),
            decreases width - px,
        {
            let w = render_pixel(px, py, width, height, max_iter, samples);
            buf.push(w);
            proof {
                lemma_fundamental_div_mod_converse((py * width + px) as int, width as int,
                    py as int, px as int);
            }
            px = px + 1;
        }
        proof {
            assert((py + 1) * width == py * width + width) by (nonlinear_arith);
        }
        py = py + 1;
    }
    proof {
        assert((width as int) * (height as int) == (height as int) * (width as int))
            by (nonlinear_arith);
        assert(buf@ =~= spec_frame(width as int, height as int, max_iter as nat, samples as int));
    }
    buf
}

/// Renders every row of the frame concurrently and overwrites `buf` with
/// the result, which equals the sequential `render_frame` word for word.
///
/// Relies on rayon's `par_chunks_mut`, `enumerate` and `for_each`: the
/// buffer is split into disjoint, non-overlapping chunks of exactly `width`
/// words (one per row, since the buffer length is `width * height`), and
/// each chunk is handed exactly once, with its row index, to the closure,
/// which fills it with the verified row produced by `render_row`.
#[verifier::external_body]
pub(crate) fn mandelbrot_to_buf(
    buf: &mut Vec<u32>,
    width: usize,
    height: usize,
    max_iter: u32,
    samples: u32,
)
    requires
        old(buf)@.len() == width * height,
        1 <= width <= MAX_DIM,
        1 <= height <= MAX_DIM,
        1 <= samples <= MAX_SAMPLES,
        1 <= max_iter <= MAX_DEPTH,
    ensures
        final(buf)@ == spec_frame(width as int, height as int, max_iter as nat, samples as int),
{
    buf.par_chunks_mut(width).enumerate().for_each(|(py, row)| {
        let vals = render_row(py, width, height, max_iter, samples);
        row.copy_from_slice(&vals);
    });
}

/// Rendering is deterministic: two frames rendered with the same
/// dimensions, depth and supersample factor are byte-identical.
pub proof fn lemma_render_deterministic(a: Seq<u32>, b: Seq<u32>, w: int, h: int, m: nat, s: int)
    requires
        a == spec_frame(w, h, m, s),
        b == spec_frame(w, h, m, s),
    ensures
        a == b,
{
}

/// The center pixel of the canvas projects to the complex origin.
pub proof fn lemma_center_maps_to_origin(w: int, h: int)
    requires
        1 <= w,
        1 <= h,
    ensures
        base_re(w / 2, w) == 0,
        base_im(h / 2, h) == 0,
{
    lemma_tdiv_zero(w);
    lemma_tdiv_zero(h);
    assert(base_re(w / 2, w) == tdiv(0, w));
    assert(base_im(h / 2, h) == tdiv(0, h));
}

/// With supersample factor 1 the averager does not blend: the pixel's
/// channel value is exactly the rounded normalized divergence value of its
/// single sub-sample.
pub proof fn lemma_single_sample_channel(cr: int, ci: int, w: int, h: int, m: nat)
    requires
        1 <= m,
    ensures
        channel(cr, ci, w, h, 1, m) == round255(
            sample_num(cr + off(0, 1, w), ci + off(0, 1, h), m),
            m,
        ),
{
    assert(subsample_sum(cr, ci, w, h, 1, m, 0nat) == 0);
    assert(0int / 1 == 0 && 0int % 1 == 0);
    assert(subsample_sum(cr, ci, w, h, 1, m, 1nat) == subsample_num(cr, ci, w, h, 1, m, 0, 0));
}

} // verus!
