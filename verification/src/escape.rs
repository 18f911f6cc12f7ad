//! Escape-time evaluation of the Mandelbrot recurrence.
//!
//! For a complex point `c`, the recurrence `z_0 = 0`, `z_{n+1} = z_n^2 + c`
//! is iterated; the step at which `|z_n|^2` first exceeds the squared escape
//! radius `4` is the point's escape index. A point that survives `max_iter`
//! steps counts as interior. The normalized divergence value of a sample is
//! the escape index over `max_iter` (an interior point contributes `0`), so
//! both interior points and points that escape immediately render darkest.

use vstd::prelude::*;

use crate::fixed::{fix_mul, fmul, lemma_fmul_bound, lemma_fmul_square_nonneg, SCALE};

verus! {

/// Real part of `z^2 + c` for `z = (zr, zi)`.
pub open spec fn next_re(zr: int, zi: int, cr: int) -> int {
    fmul(zr, zr) - fmul(zi, zi) + cr
}

/// Imaginary part of `z^2 + c` for `z = (zr, zi)`.
pub open spec fn next_im(zr: int, zi: int, ci: int) -> int {
    2 * fmul(zr, zi) + ci
}

/// Squared magnitude `re^2 + im^2` of `z = (zr, zi)`, in fixed-point.
pub open spec fn mag2(zr: int, zi: int) -> int {
    fmul(zr, zr) + fmul(zi, zi)
}

/// Index of the first of the next `fuel` iterates of `z` (counting `z`
/// itself as index 0) whose squared magnitude exceeds 4, if there is one.
pub open spec fn escape_from(zr: int, zi: int, cr: int, ci: int, fuel: nat) -> Option<nat>
    decreases fuel,
{
    if fuel == 0 {
        None
    } else if mag2(zr, zi) > 4 * SCALE {
        Some(0nat)
    } else {
        match escape_from(next_re(zr, zi, cr), next_im(zr, zi, ci), cr, ci, (fuel - 1) as nat) {
            Some(k) => Some((k + 1) as nat),
            None => None,
        }
    }
}

/// Escape index of the point `c = (cr, ci)` under at most `max_iter` steps:
/// the first `i` with `|z_i|^2 > 4`, starting from `z_0 = 0`, or `None` for
/// an interior point.
pub open spec fn escape_index(cr: int, ci: int, max_iter: nat) -> Option<nat> {
    escape_from(0, 0, cr, ci, max_iter)
}

/// Numerator of the normalized divergence value `i / max_iter`: the escape
/// index, or `0` for an interior point.
pub open spec fn sample_num(cr: int, ci: int, max_iter: nat) -> nat {
    match escape_index(cr, ci, max_iter) {
        Some(k) => k,
        None => 0,
    }
}

/// `n1 / d1 < n2 / d2`, as the cross-multiplied comparison of two
/// non-negative fractions with positive denominators.
pub open spec fn frac_lt(n1: nat, d1: nat, n2: nat, d2: nat) -> bool {
    n1 * d2 < n2 * d1
}

/// An escape index is always smaller than the fuel that found it.
pub proof fn lemma_escape_within_fuel(zr: int, zi: int, cr: int, ci: int, fuel: nat)
    ensures
        match escape_from(zr, zi, cr, ci, fuel) {
            Some(k) => k < fuel,
            None => true,
        },
    decreases fuel,
{
    if fuel > 0 && mag2(zr, zi) <= 4 * SCALE {
        lemma_escape_within_fuel(
            next_re(zr, zi, cr),
            next_im(zr, zi, ci),
            cr,
            ci,
            (fuel - 1) as nat,
        );
    }
}

/// A squared magnitude within the escape bound pins each component of `z`
/// to at most 2 in absolute value.
proof fn lemma_component_bound(zr: int, zi: int)
    requires
        mag2(zr, zi) <= 4 * SCALE,
    ensures
        -2 * SCALE <= zr <= 2 * SCALE,
        -2 * SCALE <= zi <= 2 * SCALE,
{
    lemma_fmul_square_nonneg(zr);
    lemma_fmul_square_nonneg(zi);
    assert(zr * zr >= 0) by (nonlinear_arith);
    assert(zi * zi >= 0) by (nonlinear_arith);
    assert(fmul(zr, zr) <= 4 * SCALE);
    assert(fmul(zi, zi) <= 4 * SCALE);
    assert((zr * zr) / 65536int <= 262144);
    assert((zi * zi) / 65536int <= 262144);
    assert(-131072 <= zr <= 131072) by (nonlinear_arith)
        requires
            (zr * zr) / 65536int <= 262144,
            zr * zr >= 0,
    {
        assert(zr * zr <= 262144 * 65536 + 65535);
    }
    assert(-131072 <= zi <= 131072) by (nonlinear_arith)
        requires
            (zi * zi) / 65536int <= 262144,
            zi * zi >= 0,
    {
        assert(zi * zi <= 262144 * 65536 + 65535);
    }
}

/// Evaluates the escape recurrence for `c = (cr, ci)` in fixed-point and
/// returns the escape index, or `None` for an interior point.
pub fn escape_step(cr: i64, ci: i64, max_iter: u32) -> (r: Option<u32>)
    requires
        -4 * SCALE <= cr <= 4 * SCALE,
        -4 * SCALE <= ci <= 4 * SCALE,
        1 <= max_iter,
    ensures
        match escape_index(cr as int, ci as int, max_iter as nat) {
            Some(k) => r == Some(k as u32) && k < max_iter,
            None => r == None::<u32>,
        },
{
    let mut zr: i64 = 0;
    let mut zi: i64 = 0;
    let mut i: u32 = 0;
    while i < max_iter
        invariant
            0 <= i <= max_iter,
            -12 * SCALE <= zr <= 12 * SCALE,
            -12 * SCALE <= zi <= 12 * SCALE,
            -4 * SCALE <= cr <= 4 * SCALE,
            -4 * SCALE <= ci <= 4 * SCALE,
            1 <= max_iter,
            escape_index(cr as int, ci as int, max_iter as nat) == match escape_from(
                zr as int,
                zi as int,
                cr as int,
                ci as int,
                (max_iter - i) as nat,
            ) {
                Some(k) => Some((i + k) as nat),
                None => None::<nat>,
            },
        decreases max_iter - i,
    {
        proof {
            lemma_fmul_square_nonneg(zr as int);
            lemma_fmul_square_nonneg(zi as int);
            lemma_fmul_bound(zr as int, zr as int, 12 * SCALE as int, 12 * SCALE as int);
            lemma_fmul_bound(zi as int, zi as int, 12 * SCALE as int, 12 * SCALE as int);
        }
        let mr = fix_mul(zr, zr);
        let mi = fix_mul(zi, zi);
        proof {
            assert((786432int * 786432) / 65536int == 9437184) by (nonlinear_arith);
            assert(0 <= mr <= 9437184);
            assert(0 <= mi <= 9437184);
        }
        let m2 = mr + mi;
        if m2 > 4 * SCALE {
            proof {
                lemma_escape_within_fuel(zr as int, zi as int, cr as int, ci as int, (
                max_iter - i) as nat);
            }
            return Some(i);
        }
        proof {
            lemma_component_bound(zr as int, zi as int);
            lemma_fmul_bound(zr as int, zi as int, 2 * SCALE as int, 2 * SCALE as int);
        }
        let cross = fix_mul(zr, zi);
        let nr = mr - mi + cr;
        let ni = 2 * cross + ci;
        proof {
            let fuel = (max_iter - i) as nat;
            assert(escape_from(zr as int, zi as int, cr as int, ci as int, fuel) == match
                escape_from(nr as int, ni as int, cr as int, ci as int, (fuel - 1) as nat) {
                Some(k) => Some((k + 1) as nat),
                None => None::<nat>,
            });
        }
        zr = nr;
        zi = ni;
        i = i + 1;
    }
    None
}

/// Returns the numerator of the normalized divergence value of `c`: its
/// escape index, with `0` standing in for an interior point.
pub fn sample_value(cr: i64, ci: i64, max_iter: u32) -> (r: u32)
    requires
        -4 * SCALE <= cr <= 4 * SCALE,
        -4 * SCALE <= ci <= 4 * SCALE,
        1 <= max_iter,
    ensures
        r == sample_num(cr as int, ci as int, max_iter as nat),
        r < max_iter,
{
    match escape_step(cr, ci, max_iter) {
        Some(k) => k,
        None => 0,
    }
}

/// The origin lies in the Mandelbrot set: iterating from `z = 0` with
/// `c = 0` stays at `0` forever, so no fuel suffices to escape.
proof fn lemma_origin_never_escapes(fuel: nat)
    ensures
        escape_from(0, 0, 0, 0, fuel) == None::<nat>,
    decreases fuel,
{
    if fuel > 0 {
        lemma_origin_never_escapes((fuel - 1) as nat);
    }
}

/// The point `c = (0, 0)` is interior at every iteration depth, so the
/// evaluator's normalized divergence value for it is zero.
pub proof fn lemma_origin_interior(max_iter: nat)
    ensures
        escape_index(0, 0, max_iter) == None::<nat>,
        sample_num(0, 0, max_iter) == 0,
{
    lemma_origin_never_escapes(max_iter);
}

/// An escape index found within some fuel is found, unchanged, by any
/// larger fuel.
proof fn lemma_escape_from_stable(zr: int, zi: int, cr: int, ci: int, f1: nat, f2: nat, k: nat)
    requires
        escape_from(zr, zi, cr, ci, f1) == Some(k),
        f1 <= f2,
    ensures
        escape_from(zr, zi, cr, ci, f2) == Some(k),
    decreases f1,
{
    if mag2(zr, zi) <= 4 * SCALE {
        let nr = next_re(zr, zi, cr);
        let ni = next_im(zr, zi, ci);
        match escape_from(nr, ni, cr, ci, (f1 - 1) as nat) {
            Some(k0) => {
                lemma_escape_from_stable(nr, ni, cr, ci, (f1 - 1) as nat, (f2 - 1) as nat, k0);
            },
            None => {},
        }
    }
}

/// The raw escape index of an escaping point does not depend on the
/// iteration limit, as long as the limit exceeds the index.
pub proof fn lemma_escape_index_stable(cr: int, ci: int, m1: nat, m2: nat, k: nat)
    requires
        escape_index(cr, ci, m1) == Some(k),
        m1 <= m2,
    ensures
        escape_index(cr, ci, m2) == Some(k),
{
    lemma_escape_from_stable(0, 0, cr, ci, m1, m2, k);
}

/// Iteration starts at `z_0 = 0`, whose squared magnitude is `0`, so an
/// escape is only ever detected from index 1 on.
pub proof fn lemma_escape_index_positive(cr: int, ci: int, m: nat, k: nat)
    requires
        escape_index(cr, ci, m) == Some(k),
    ensures
        1 <= k < m,
{
    lemma_escape_within_fuel(0, 0, cr, ci, m);
}

/// The normalized divergence numerator of any sample stays below the
/// iteration depth.
pub proof fn lemma_sample_num_lt(cr: int, ci: int, m: nat)
    requires
        1 <= m,
    ensures
        sample_num(cr, ci, m) < m,
{
    match escape_index(cr, ci, m) {
        Some(k) => {
            lemma_escape_index_positive(cr, ci, m, k);
        },
        None => {},
    }
}

/// For a point that escapes at index `k` within depth `m1`, raising the
/// depth to `m2 > m1` keeps the raw index `k` and strictly lowers the
/// normalized divergence value `k / depth`.
pub proof fn lemma_normalized_value_decreases(cr: int, ci: int, m1: nat, m2: nat, k: nat)
    requires
        escape_index(cr, ci, m1) == Some(k),
        m1 < m2,
    ensures
        escape_index(cr, ci, m2) == Some(k),
        frac_lt(k, m2, k, m1),
{
    lemma_escape_index_stable(cr, ci, m1, m2, k);
    lemma_escape_index_positive(cr, ci, m1, k);
    assert(k * m1 < k * m2) by (nonlinear_arith)
        requires
            1 <= k,
            m1 < m2,
    {}
}

} // verus!
