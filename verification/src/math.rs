//! Deterministic fixed-point numeric core.
//!
//! Real-valued quantities (densities, probabilities, prices, distribution
//! parameters) are represented as integers scaled by [`SCALE`]: the integer
//! `v` stands for the real number `v / SCALE`. Transcendental functions are
//! fixed truncated series and polynomial approximations over these integers,
//! so every result is a function of the arguments alone and identical on
//! every machine.

use vstd::math::abs;
use vstd::prelude::*;

verus! {

/// Fixed-point scale: one unit of a scaled integer is `1 / SCALE`.
pub const SCALE: u64 = 1_000_000;

/// Integer square root: the largest `r` with `r * r <= n`.
pub fn isqrt(n: u64) -> (r: u64)
    ensures
        r * r <= n,
        n < (r + 1) * (r + 1),
{
    let mut lo: u64 = 0;
    let mut hi: u64 = 4_294_967_296;
    proof {
        assert((4_294_967_296 as int) * (4_294_967_296 as int) == 18_446_744_073_709_551_616) by (nonlinear_arith) {}
    }
    while lo + 1 < hi
        invariant
            lo < hi <= 4_294_967_296,
            lo * lo <= n,
            n < hi * hi,
        decreases hi - lo,
    {
        let mid: u64 = lo + (hi - lo) / 2;
        assert(lo < mid < hi);
        assert(mid * mid <= u64::MAX) by (nonlinear_arith)
            requires mid < 4_294_967_296u64,
        {}
        if mid * mid <= n {
            lo = mid;
        } else {
            hi = mid;
        }
    }
    proof {
        assert(lo + 1 == hi);
        assert(n < (lo + 1) * (lo + 1));
    }
    lo
}

/// Floor of `1_000_000 / e`, the fixed-point value of `exp(-1)`.
pub const INV_E: u64 = 367_879;

/// Number of Taylor terms used by [`exp_neg`] on the fractional part.
pub const EXP_TERMS: u64 = 12;

/// Fixed-point input above which [`exp_neg`] is identically zero: `exp(-28)`
/// is far below one fixed-point unit.
pub const EXP_NEG_CUTOFF: u64 = 28_000_000;

/// The `k`-th truncated Taylor term of `exp(-x/SCALE)` in fixed point:
/// `term(0) = SCALE`, `term(k) = term(k-1) * x / (k * SCALE)` with floor
/// division at each step.
pub open spec fn exp_taylor_term(x: int, k: nat) -> int
    decreases k,
{
    if k == 0 {
        SCALE as int
    } else {
        exp_taylor_term(x, (k - 1) as nat) * x / (k * SCALE as int)
    }
}

/// The alternating partial sum of the first `k + 1` truncated Taylor terms of
/// `exp(-x/SCALE)`, clamped into `[0, SCALE]` after every step.
pub open spec fn exp_taylor_sum(x: int, k: nat) -> int
    decreases k,
{
    if k == 0 {
        SCALE as int
    } else {
        let prev = exp_taylor_sum(x, (k - 1) as nat);
        let t = exp_taylor_term(x, k);
        if k % 2 == 1 {
            if t <= prev {
                prev - t
            } else {
                0
            }
        } else {
            if prev + t <= SCALE as int {
                prev + t
            } else {
                SCALE as int
            }
        }
    }
}

/// `v` multiplied `q` times by `exp(-1)` in fixed point, with floor division
/// at each step.
pub open spec fn exp_decay(v: int, q: nat) -> int
    decreases q,
{
    if q == 0 {
        v
    } else {
        exp_decay(v, (q - 1) as nat) * INV_E as int / SCALE as int
    }
}

/// What [`exp_neg`] returns: zero past the cutoff, otherwise the Taylor sum
/// on the fractional part decayed once per whole unit.
pub open spec fn exp_neg_spec(w: int) -> int {
    if w >= EXP_NEG_CUTOFF as int {
        0
    } else {
        exp_decay(exp_taylor_sum(w % (SCALE as int), EXP_TERMS as nat), (w / SCALE as int) as nat)
    }
}

proof fn lemma_exp_taylor_term_nonneg(x: int, k: nat)
    requires
        0 <= x,
    ensures
        0 <= exp_taylor_term(x, k),
    decreases k,
{
    if k > 0 {
        lemma_exp_taylor_term_nonneg(x, (k - 1) as nat);
        let prev = exp_taylor_term(x, (k - 1) as nat);
        assert(prev * x / (k * SCALE as int) >= 0) by (nonlinear_arith)
            requires 0 <= prev, 0 <= x, 1 <= k,
        {}
    }
}

proof fn lemma_exp_taylor_sum_bounds(x: int, k: nat)
    requires
        0 <= x < SCALE as int,
    ensures
        0 <= exp_taylor_sum(x, k) <= SCALE as int,
    decreases k,
{
    if k > 0 {
        lemma_exp_taylor_sum_bounds(x, (k - 1) as nat);
        lemma_exp_taylor_term_nonneg(x, k);
    }
}

proof fn lemma_exp_decay_bounds(v: int, q: nat)
    requires
        0 <= v <= SCALE as int,
    ensures
        0 <= exp_decay(v, q) <= SCALE as int,
    decreases q,
{
    if q > 0 {
        lemma_exp_decay_bounds(v, (q - 1) as nat);
        let prev = exp_decay(v, (q - 1) as nat);
        assert(prev * INV_E as int / SCALE as int <= SCALE as int) by (nonlinear_arith)
            requires 0 <= prev <= SCALE as int,
        {}
        assert(prev * INV_E as int / SCALE as int >= 0) by (nonlinear_arith)
            requires 0 <= prev,
        {}
    }
}

/// Truncated Taylor evaluation of `exp(-x/SCALE)` for `x` in `[0, SCALE)`.
fn exp_neg_frac(x: u64) -> (r: u64)
    requires
        x < SCALE,
    ensures
        r as int == exp_taylor_sum(x as int, EXP_TERMS as nat),
        r <= SCALE,
{
    let mut acc: u64 = SCALE;
    let mut term: u64 = SCALE;
    let mut k: u64 = 1;
    while k <= EXP_TERMS
        invariant
            1 <= k <= EXP_TERMS + 1,
            x < SCALE,
            term as int == exp_taylor_term(x as int, (k - 1) as nat),
            acc as int == exp_taylor_sum(x as int, (k - 1) as nat),
            term <= SCALE,
            acc <= SCALE,
        decreases EXP_TERMS + 1 - k,
    {
        proof {
            assert(term as int * x as int <= u128::MAX) by (nonlinear_arith)
                requires term <= SCALE, x < SCALE,
            {}
            assert(k as int * SCALE as int <= u128::MAX) by (nonlinear_arith)
                requires k <= EXP_TERMS,
            {}
        }
        let t128: u128 = (term as u128) * (x as u128) / ((k as u128) * (SCALE as u128));
        proof {
            assert(term as int * x as int / (k as int * SCALE as int) <= term as int) by (nonlinear_arith)
                requires
                    0 <= (term as int),
                    0 <= (x as int),
                    (x as int) < (SCALE as int),
                    1 <= (k as int),
            {}
        }
        let t: u64 = t128 as u64;
        if k % 2 == 1 {
            acc = if t <= acc {
                acc - t
            } else {
                0
            };
        } else {
            acc = if acc + t <= SCALE {
                acc + t
            } else {
                SCALE
            };
        }
        term = t;
        k = k + 1;
    }
    acc
}

/// Fixed-point `exp(-w/SCALE)` for non-negative `w`, as a truncated Taylor
/// series on the fractional part decayed by [`INV_E`] once per whole unit.
/// The result lies in `[0, SCALE]`.
pub fn exp_neg(w: u64) -> (r: u64)
    ensures
        r as int == exp_neg_spec(w as int),
        r <= SCALE,
{
    if w >= EXP_NEG_CUTOFF {
        return 0;
    }
    let q: u64 = w / SCALE;
    let rem: u64 = w % SCALE;
    let fr: u64 = exp_neg_frac(rem);
    let mut r: u64 = fr;
    let mut i: u64 = 0;
    proof {
        lemma_exp_taylor_sum_bounds(rem as int, EXP_TERMS as nat);
    }
    while i < q
        invariant
            i <= q,
            r as int == exp_decay(exp_taylor_sum((w as int) % (SCALE as int), EXP_TERMS as nat), i as nat),
            0 <= r <= SCALE,
            fr as int == exp_taylor_sum((w as int) % (SCALE as int), EXP_TERMS as nat),
            fr <= SCALE,
        decreases q - i,
    {
        proof {
            lemma_exp_decay_bounds(fr as int, (i + 1) as nat);
        }
        let stepped: u64 = ((r as u128 * INV_E as u128) / SCALE as u128) as u64;
        r = stepped;
        i = i + 1;
    }
    r
}

/// Fixed-point `sqrt(2 * pi)`.
pub const SQRT_2PI: u64 = 2_506_628;

/// Fixed-point `1 / sqrt(2 * pi)`, the standard normal density at zero.
pub const INV_SQRT_2PI: u64 = 398_942;

/// Fixed-point `|z|` beyond which the normal density and tail are below one
/// fixed-point unit for every admissible `sigma`.
pub const Z_CUTOFF: u64 = 8_000_000;

/// Half of [`SCALE`]: the fixed-point probability one half.
pub const HALF_SCALE: u64 = 500_000;

/// Coefficient `p` of the Abramowitz-Stegun 7.1.26 approximation.
pub const AS_P: u64 = 231_642;

/// Coefficient `a1` of the Abramowitz-Stegun 7.1.26 approximation.
pub const AS_A1: u64 = 319_382;

/// Magnitude of the negative coefficient `a2`.
pub const AS_A2_NEG: u64 = 356_564;

/// Coefficient `a3`.
pub const AS_A3: u64 = 1_781_478;

/// Magnitude of the negative coefficient `a4`.
pub const AS_A4_NEG: u64 = 1_821_256;

/// Coefficient `a5`.
pub const AS_A5: u64 = 1_330_274;

/// The Gaussian density in fixed point: zero for non-positive `sigma` or
/// past the cutoff, otherwise `exp(-z*z/2) / (sigma * sqrt(2*pi))` with `z`
/// the standardised distance from the mean.
pub open spec fn gauss_pdf_spec(x: int, mu: int, sigma: int) -> int {
    if sigma <= 0 {
        0
    } else {
        let zabs = abs(x - mu) * SCALE as int / sigma;
        if zabs > Z_CUTOFF as int {
            0
        } else {
            let w = zabs * zabs / (2 * SCALE as int);
            let norm = SCALE as int * SCALE as int * SCALE as int / (sigma * SQRT_2PI as int);
            norm * exp_neg_spec(w) / SCALE as int
        }
    }
}

/// Gaussian probability density at `x` for mean `mu` and deviation `sigma`,
/// all in fixed point. Returns `0` whenever `sigma <= 0`.
pub fn gauss_pdf(x: i64, mu: i64, sigma: i64) -> (r: u64)
    ensures
        r as int == gauss_pdf_spec(x as int, mu as int, sigma as int),
        sigma <= 0 ==> r == 0,
{
    if sigma <= 0 {
        return 0;
    }
    let diff: i128 = x as i128 - mu as i128;
    let adiff: u128 = if diff < 0 {
        (-diff) as u128
    } else {
        diff as u128
    };
    proof {
        assert(adiff as int * SCALE as int <= u128::MAX) by (nonlinear_arith)
            requires adiff as int <= u64::MAX as int + u64::MAX as int,
        {}
    }
    let zabs: u128 = adiff * SCALE as u128 / (sigma as u128);
    if zabs > Z_CUTOFF as u128 {
        return 0;
    }
    proof {
        assert(zabs as int * zabs as int <= 64_000_000_000_000int) by (nonlinear_arith)
            requires 0 <= (zabs as int), zabs as int <= 8_000_000,
        {}
        assert(zabs as int * zabs as int / (2 * SCALE as int) <= 64_000_000_000_000int) by (nonlinear_arith)
            requires 0 <= (zabs as int), zabs as int * zabs as int <= 64_000_000_000_000int, SCALE == 1_000_000u64,
        {}
    }
    let w: u64 = (zabs * zabs / (2 * SCALE as u128)) as u64;
    let e: u64 = exp_neg(w);
    proof {
        assert(sigma as int * SQRT_2PI as int <= u128::MAX) by (nonlinear_arith)
            requires 0 < sigma as int <= i64::MAX as int,
        {}
    }
    let norm: u128 = 1_000_000_000_000_000_000u128 / (sigma as u128 * SQRT_2PI as u128);
    proof {
        assert(SCALE as int * SCALE as int * SCALE as int == 1_000_000_000_000_000_000int) by (nonlinear_arith) {}
        assert(norm as int <= 1_000_000_000_000_000_000) by (nonlinear_arith)
            requires norm as int == 1_000_000_000_000_000_000int / (sigma as int * SQRT_2PI as int), 0 < (sigma as int),
        {}
        assert(norm as int * e as int <= u128::MAX) by (nonlinear_arith)
            requires norm as int <= 1_000_000_000_000_000_000int, e <= SCALE,
        {}
        assert(norm as int * e as int / (SCALE as int) <= u64::MAX) by (nonlinear_arith)
            requires norm as int <= 1_000_000_000_000_000_000int, e <= SCALE,
        {}
    }
    let r128: u128 = norm * (e as u128) / (SCALE as u128);
    r128 as u64
}

/// The upper tail `1 - Phi(z)` of the standard normal distribution for
/// `0 < z < Z_CUTOFF`, by the Abramowitz-Stegun 7.1.26 polynomial in
/// `t = 1 / (1 + p * z)`, clamped into `[0, 1/2]`.
pub open spec fn phi_tail_spec(z: int) -> int {
    let t = SCALE as int * SCALE as int / (SCALE as int + AS_P as int * z / SCALE as int);
    let w = z * z / (2 * SCALE as int);
    let pdf0 = INV_SQRT_2PI as int * exp_neg_spec(w) / SCALE as int;
    let t2 = t * t / SCALE as int;
    let t3 = t2 * t / SCALE as int;
    let t4 = t3 * t / SCALE as int;
    let t5 = t4 * t / SCALE as int;
    let pos = (AS_A1 as int * t + AS_A3 as int * t3 + AS_A5 as int * t5) / SCALE as int;
    let neg = (AS_A2_NEG as int * t2 + AS_A4_NEG as int * t4) / SCALE as int;
    let poly = if pos >= neg {
        pos - neg
    } else {
        0
    };
    let tail = pdf0 * poly / SCALE as int;
    if tail > HALF_SCALE as int {
        HALF_SCALE as int
    } else {
        tail
    }
}

/// The standard normal cumulative distribution in fixed point, symmetric
/// around zero by construction: probabilities `0` and `SCALE` past the
/// cutoff, exactly one half at zero, and `SCALE - tail` on the positive side.
pub open spec fn phi_cdf_spec(z: int) -> int {
    if z >= Z_CUTOFF as int {
        SCALE as int
    } else if z <= -(Z_CUTOFF as int) {
        0
    } else if z == 0 {
        HALF_SCALE as int
    } else if z > 0 {
        SCALE as int - phi_tail_spec(z)
    } else {
        phi_tail_spec(-z)
    }
}

/// The normal CDF approximation is symmetric: for every `z`, the
/// probabilities at `z` and `-z` add up to exactly one.
pub proof fn lemma_phi_cdf_symmetry(z: int)
    ensures
        phi_cdf_spec(-z) + phi_cdf_spec(z) == SCALE as int,
{
    lemma_phi_tail_spec_bounds(z);
    lemma_phi_tail_spec_bounds(-z);
}

proof fn lemma_phi_tail_spec_bounds(z: int)
    ensures
        0 <= phi_tail_spec(z) <= HALF_SCALE as int,
{
    let t = SCALE as int * SCALE as int / (SCALE as int + AS_P as int * z / SCALE as int);
    let w = z * z / (2 * SCALE as int);
    let pdf0 = INV_SQRT_2PI as int * exp_neg_spec(w) / SCALE as int;
    let t2 = t * t / SCALE as int;
    let t3 = t2 * t / SCALE as int;
    let t4 = t3 * t / SCALE as int;
    let t5 = t4 * t / SCALE as int;
    let pos = (AS_A1 as int * t + AS_A3 as int * t3 + AS_A5 as int * t5) / SCALE as int;
    let neg = (AS_A2_NEG as int * t2 + AS_A4_NEG as int * t4) / SCALE as int;
    let poly = if pos >= neg {
        pos - neg
    } else {
        0
    };
    lemma_exp_neg_spec_nonneg(w);
    assert(pdf0 >= 0) by (nonlinear_arith)
        requires pdf0 == INV_SQRT_2PI as int * exp_neg_spec(w) / SCALE as int, exp_neg_spec(w) >= 0,
    {}
    assert(pdf0 * poly / (SCALE as int) >= 0) by (nonlinear_arith)
        requires pdf0 >= 0, poly >= 0,
    {}
}

proof fn lemma_exp_neg_spec_nonneg(w: int)
    ensures
        0 <= exp_neg_spec(w) <= SCALE as int,
{
    if w >= EXP_NEG_CUTOFF as int {
    } else {
        let x = w % (SCALE as int);
        let q = (w / SCALE as int) as nat;
        vstd::arithmetic::div_mod::lemma_mod_division_less_than_divisor(w, SCALE as int);
        lemma_exp_taylor_sum_bounds(x, EXP_TERMS as nat);
        lemma_exp_decay_bounds(exp_taylor_sum(x, EXP_TERMS as nat), q);
    }
}

/// Tail computation behind [`phi_cdf_as`].
#[verifier::rlimit(60)]
fn phi_tail(z: u64) -> (r: u64)
    requires
        1 <= z < Z_CUTOFF,
    ensures
        r as int == phi_tail_spec(z as int),
        r <= HALF_SCALE,
{
    proof {
        assert(AS_P as int * z as int <= 2_000_000_000_000int) by (nonlinear_arith)
            requires 0 <= (z as int), (z as int) < (Z_CUTOFF as int), AS_P == 231_642u64, Z_CUTOFF == 8_000_000u64,
        {}
    }
    let pz: u128 = AS_P as u128 * z as u128 / SCALE as u128;
    let denom: u128 = SCALE as u128 + pz;
    let t: u128 = (SCALE as u128 * SCALE as u128) / denom;
    proof {
        assert(t as int <= SCALE as int) by (nonlinear_arith)
            requires
                t as int == SCALE as int * SCALE as int / (denom as int),
                denom as int >= SCALE as int,
                SCALE == 1_000_000u64,
        {}
    }
    proof {
        assert(z as int * z as int <= 64_000_000_000_000int) by (nonlinear_arith)
            requires 0 <= (z as int), (z as int) < 8_000_000,
        {}
        assert(z as int * z as int / (2 * SCALE as int) <= 32_000_000int) by (nonlinear_arith)
            requires 0 <= (z as int), (z as int) < 8_000_000, SCALE == 1_000_000u64,
        {}
    }
    let w: u64 = ((z as u128) * (z as u128) / (2 * SCALE as u128)) as u64;
    let e: u64 = exp_neg(w);
    let pdf0: u128 = INV_SQRT_2PI as u128 * e as u128 / (SCALE as u128);
    proof {
        assert(t as int * t as int / (SCALE as int) <= SCALE as int) by (nonlinear_arith)
            requires 0 <= (t as int), t as int <= (SCALE as int), SCALE == 1_000_000u64,
        {}
        assert(t as int * t as int / (SCALE as int) >= 0) by (nonlinear_arith)
            requires 0 <= (t as int), SCALE == 1_000_000u64,
        {}
    }
    let t2: u128 = t * t / (SCALE as u128);
    proof {
        assert(t2 as int * t as int / (SCALE as int) <= SCALE as int) by (nonlinear_arith)
            requires 0 <= (t2 as int), t2 as int <= (SCALE as int), 0 <= (t as int), t as int <= (SCALE as int), SCALE == 1_000_000u64,
        {}
    }
    let t3: u128 = t2 * t / (SCALE as u128);
    proof {
        assert(t3 as int * t as int / (SCALE as int) <= SCALE as int) by (nonlinear_arith)
            requires 0 <= (t3 as int), t3 as int <= (SCALE as int), 0 <= (t as int), t as int <= (SCALE as int), SCALE == 1_000_000u64,
        {}
    }
    let t4: u128 = t3 * t / (SCALE as u128);
    proof {
        assert(t4 as int * t as int / (SCALE as int) <= SCALE as int) by (nonlinear_arith)
            requires 0 <= (t4 as int), t4 as int <= (SCALE as int), 0 <= (t as int), t as int <= (SCALE as int), SCALE == 1_000_000u64,
        {}
    }
    let t5: u128 = t4 * t / (SCALE as u128);
    proof {
        assert(AS_A1 as int * t as int + AS_A3 as int * t3 as int + AS_A5 as int * t5 as int <= u128::MAX) by (nonlinear_arith)
            requires
                0 <= (t as int), t as int <= (SCALE as int),
                0 <= (t3 as int), t3 as int <= (SCALE as int),
                0 <= (t5 as int), t5 as int <= (SCALE as int),
                SCALE == 1_000_000u64, AS_A1 == 319_382u64, AS_A3 == 1_781_478u64, AS_A5 == 1_330_274u64,
        {}
        assert(AS_A2_NEG as int * t2 as int + AS_A4_NEG as int * t4 as int <= u128::MAX) by (nonlinear_arith)
            requires
                0 <= (t2 as int), t2 as int <= (SCALE as int),
                0 <= (t4 as int), t4 as int <= (SCALE as int),
                SCALE == 1_000_000u64, AS_A2_NEG == 356_564u64, AS_A4_NEG == 1_821_256u64,
        {}
    }
    let pos: u128 = (AS_A1 as u128 * t + AS_A3 as u128 * t3 + AS_A5 as u128 * t5) / (SCALE as u128);
    let neg: u128 = (AS_A2_NEG as u128 * t2 + AS_A4_NEG as u128 * t4) / (SCALE as u128);
    let poly: u128 = if pos >= neg {
        pos - neg
    } else {
        0
    };
    proof {
        assert(pos as int <= 3_431_134) by (nonlinear_arith)
            requires
                pos as int == (AS_A1 as int * t as int + AS_A3 as int * t3 as int + AS_A5 as int * t5 as int) / (SCALE as int),
                0 <= (t as int), t as int <= (SCALE as int),
                0 <= (t3 as int), t3 as int <= (SCALE as int),
                0 <= (t5 as int), t5 as int <= (SCALE as int),
                SCALE == 1_000_000u64,
                AS_A1 == 319_382u64,
                AS_A3 == 1_781_478u64,
                AS_A5 == 1_330_274u64,
        {}
        assert(pdf0 as int <= INV_SQRT_2PI as int) by (nonlinear_arith)
            requires
                pdf0 as int == INV_SQRT_2PI as int * e as int / (SCALE as int),
                e <= SCALE,
                SCALE == 1_000_000u64,
                INV_SQRT_2PI == 398_942u64,
        {}
        assert(pdf0 as int * poly as int <= u128::MAX) by (nonlinear_arith)
            requires 0 <= (pdf0 as int), pdf0 as int <= 398_942, 0 <= (poly as int), poly as int <= 3_431_134,
        {}
    }
    let tail: u128 = pdf0 * poly / (SCALE as u128);
    if tail > HALF_SCALE as u128 {
        HALF_SCALE
    } else {
        tail as u64
    }
}

/// Standard normal CDF approximation (Abramowitz-Stegun 7.1.26 class) in
/// fixed point, with the negative side defined by symmetry. The result lies
/// in `[0, SCALE]` and `phi(-z) + phi(z) == SCALE` for every `z` (see
/// [`lemma_phi_cdf_symmetry`]).
pub fn phi_cdf_as(z: i64) -> (r: u64)
    ensures
        r as int == phi_cdf_spec(z as int),
        r <= SCALE,
{
    proof {
        lemma_phi_tail_spec_bounds(z as int);
        lemma_phi_tail_spec_bounds(-(z as int));
    }
    if z >= Z_CUTOFF as i64 {
        SCALE
    } else if z <= -(Z_CUTOFF as i64) {
        0
    } else if z == 0 {
        HALF_SCALE
    } else if z > 0 {
        SCALE - phi_tail(z as u64)
    } else {
        phi_tail((-z) as u64)
    }
}

/// Rounding against the trader: non-negative fixed-point amounts are floored
/// to whole units, negative ones are raised towards zero.
pub open spec fn conservative_round_spec(amount: int) -> int {
    if amount >= 0 {
        amount / SCALE as int
    } else {
        -((-amount) / SCALE as int)
    }
}

/// Converts a fixed-point amount to whole units, always rounding in the
/// protocol's favour: down for non-negative amounts, up for negative ones.
pub fn conservative_round(amount: i64) -> (r: i64)
    ensures
        r as int == conservative_round_spec(amount as int),
        amount >= 0 ==> r * SCALE <= amount < (r + 1) * SCALE,
        amount < 0 ==> (r - 1) * SCALE < amount <= r * SCALE,
{
    if amount >= 0 {
        let q: u64 = (amount as u64) / SCALE;
        proof {
            vstd::arithmetic::div_mod::lemma_fundamental_div_mod(amount as int, SCALE as int);
        }
        q as i64
    } else {
        let m: u64 = (-(amount as i128)) as u64;
        let q: u64 = m / SCALE;
        proof {
            vstd::arithmetic::div_mod::lemma_fundamental_div_mod(m as int, SCALE as int);
        }
        -(q as i64)
    }
}

/// Addition capped at the accumulator word: the sums in the discretized
/// integrals saturate rather than wrap.
pub open spec fn sat_add_u128(a: int, b: int) -> int {
    if a + b > u128::MAX {
        u128::MAX as int
    } else {
        a + b
    }
}

/// Multiplication capped at the accumulator word.
pub open spec fn sat_mul_u128(a: int, b: int) -> int {
    if a * b > u128::MAX {
        u128::MAX as int
    } else {
        a * b
    }
}

/// Number of grid points `min, min + step, ...` that do not pass `max`,
/// for a positive `step` and `min < max`.
pub open spec fn grid_count(min: int, max: int, step: int) -> int {
    (max - min) / step + 1
}

/// Accumulated fixed-point sum of `|g - f| * step` over the first `n`
/// sampled grid points, saturating at the accumulator word.
pub open spec fn l1_acc(fs: Seq<i64>, gs: Seq<i64>, step: int, n: nat) -> int
    decreases n,
{
    if n == 0 {
        0
    } else {
        let prev = l1_acc(fs, gs, step, (n - 1) as nat);
        let d = abs(gs[n - 1] as int - fs[n - 1] as int) as int;
        sat_add_u128(prev, d * step)
    }
}

/// Accumulated fixed-point sum of `(g - f)^2 * step` over the first `n`
/// sampled grid points, saturating at the accumulator word.
pub open spec fn l2_acc(fs: Seq<i64>, gs: Seq<i64>, step: int, n: nat) -> int
    decreases n,
{
    if n == 0 {
        0
    } else {
        let prev = l2_acc(fs, gs, step, (n - 1) as nat);
        let d = abs(gs[n - 1] as int - fs[n - 1] as int) as int;
        sat_add_u128(prev, sat_mul_u128(d * d, step))
    }
}

/// How many sampled points the discretized integrals take in: every grid
/// point within `[min, max]` for which both sample vectors have a value.
pub open spec fn sample_count(min: int, max: int, step: int, fs: Seq<i64>, gs: Seq<i64>) -> int {
    let len = if fs.len() <= gs.len() {
        fs.len() as int
    } else {
        gs.len() as int
    };
    if len <= grid_count(min, max, step) {
        len
    } else {
        grid_count(min, max, step)
    }
}

/// The discretized L1 distance: zero when the stepping is degenerate,
/// otherwise the saturated sum over the sampled grid, in whole fixed-point
/// units, capped at the result word.
pub open spec fn discretized_l1_spec(min: int, max: int, step: int, fs: Seq<i64>, gs: Seq<i64>) -> int {
    if step <= 0 || max <= min {
        0
    } else {
        let total = l1_acc(fs, gs, step, sample_count(min, max, step, fs, gs) as nat);
        let units = total / SCALE as int;
        if units > i64::MAX {
            i64::MAX as int
        } else {
            units
        }
    }
}

/// The discretized squared L2 distance, with the same stepping and
/// saturation as [`discretized_l1_spec`].
pub open spec fn discretized_l2_spec(min: int, max: int, step: int, fs: Seq<i64>, gs: Seq<i64>) -> int {
    if step <= 0 || max <= min {
        0
    } else {
        let total = l2_acc(fs, gs, step, sample_count(min, max, step, fs, gs) as nat);
        let units = total / SCALE as int;
        if units > i64::MAX {
            i64::MAX as int
        } else {
            units
        }
    }
}

proof fn lemma_l1_acc_bounds(fs: Seq<i64>, gs: Seq<i64>, step: int, n: nat)
    requires
        step > 0,
    ensures
        0 <= l1_acc(fs, gs, step, n) <= u128::MAX,
    decreases n,
{
    if n > 0 {
        lemma_l1_acc_bounds(fs, gs, step, (n - 1) as nat);
        let d = abs(gs[n - 1] as int - fs[n - 1] as int) as int;
        assert(d * step >= 0) by (nonlinear_arith)
            requires d >= 0, step > 0,
        {}
    }
}

proof fn lemma_l2_acc_bounds(fs: Seq<i64>, gs: Seq<i64>, step: int, n: nat)
    requires
        step > 0,
    ensures
        0 <= l2_acc(fs, gs, step, n) <= u128::MAX,
    decreases n,
{
    if n > 0 {
        lemma_l2_acc_bounds(fs, gs, step, (n - 1) as nat);
        let d = abs(gs[n - 1] as int - fs[n - 1] as int) as int;
        assert(d * d >= 0) by (nonlinear_arith)
            requires d >= 0,
        {}
        assert(d * d * step >= 0) by (nonlinear_arith)
            requires d * d >= 0, step > 0,
        {}
    }
}

/// At the exit of the sampling loop, the number of iterations equals the
/// sample count: `i` stepped over every grid point the vectors cover.
proof fn lemma_sample_loop_exit(min: int, max: int, step: int, fs: Seq<i64>, gs: Seq<i64>, i: int, len: int)
    requires
        step > 0,
        min < max,
        len == if fs.len() <= gs.len() { fs.len() as int } else { gs.len() as int },
        0 <= i <= len,
        i > 0 ==> min + (i - 1) * step <= max,
        i == len || min + i * step > max,
    ensures
        i == sample_count(min, max, step, fs, gs),
{
    let q = (max - min) / step;
    vstd::arithmetic::div_mod::lemma_fundamental_div_mod(max - min, step);
    if i > 0 {
        // (i - 1) * step <= max - min, so i - 1 <= q
        vstd::arithmetic::div_mod::lemma_div_is_ordered((i - 1) * step, max - min, step);
        vstd::arithmetic::div_mod::lemma_div_multiples_vanish(i - 1, step);
    }
    if i < len {
        // min + i * step > max, so i > q
        assert(i * step > max - min);
        assert(i > q) by (nonlinear_arith)
            requires
                i * step > max - min,
                max - min >= step * q,
                step > 0,
                q >= 0,
        {}
    }
    if i == len && i > 0 {
        assert(i - 1 <= q);
        assert(i <= q + 1);
    }
}

/// Discretized L1 distance between two sampled distributions. `f` and `g`
/// hold the fixed-point values of the two curves at the grid points `min`,
/// `min + step`, and so on; the sum of `|g - f| * step` runs over every grid
/// point within `[min, max]` that both vectors cover. Returns `0` whenever
/// `step <= 0` or `max <= min`.
pub fn discretized_l1_distance(min: i64, max: i64, step: i64, f: &Vec<i64>, g: &Vec<i64>) -> (r: i64)
    ensures
        r as int == discretized_l1_spec(min as int, max as int, step as int, f@, g@),
        step <= 0 || max <= min ==> r == 0,
        r >= 0,
{
    if step <= 0 || max <= min {
        return 0;
    }
    let len: usize = if f.len() <= g.len() {
        f.len()
    } else {
        g.len()
    };
    let mut acc: u128 = 0;
    let mut i: usize = 0;
    let mut pos: i128 = min as i128;
    proof {
        lemma_l1_acc_bounds(f@, g@, step as int, i as nat);
    }
    while i < len && pos <= max as i128
        invariant
            step > 0,
            min < max,
            i <= len,
            len == if f@.len() <= g@.len() { f@.len() } else { g@.len() },
            acc as int == l1_acc(f@, g@, step as int, i as nat),
            pos as int == min as int + i * (step as int),
            pos as int <= max as int + step as int,
            i > 0 ==> min as int + (i - 1) * (step as int) <= max as int,
        decreases len - i,
    {
        let dv: i128 = g[i] as i128 - f[i] as i128;
        let ad: u128 = if dv < 0 {
            (-dv) as u128
        } else {
            dv as u128
        };
        proof {
            assert(ad as int * step as int <= u128::MAX) by (nonlinear_arith)
                requires 0 <= (ad as int), ad as int <= (u64::MAX as int), 0 < (step as int), step as int <= (i64::MAX as int),
            {}
        }
        let term: u128 = ad * (step as u128);
        acc = if acc <= u128::MAX - term {
            acc + term
        } else {
            u128::MAX
        };
        i = i + 1;
        pos = pos + step as i128;
        proof {
            assert(min as int + (i - 1) * (step as int) + step as int == min as int + i * (step as int)) by (nonlinear_arith) {}
        }
    }
    proof {
        lemma_sample_loop_exit(min as int, max as int, step as int, f@, g@, i as int, len as int);
        lemma_l1_acc_bounds(f@, g@, step as int, i as nat);
    }
    let units: u128 = acc / (SCALE as u128);
    if units > i64::MAX as u128 {
        i64::MAX
    } else {
        units as i64
    }
}

/// Discretized squared L2 distance between two sampled distributions, with
/// the same grid and conventions as [`discretized_l1_distance`] but summing
/// `(g - f)^2 * step`.
pub fn discretized_l2_sq(min: i64, max: i64, step: i64, f: &Vec<i64>, g: &Vec<i64>) -> (r: i64)
    ensures
        r as int == discretized_l2_spec(min as int, max as int, step as int, f@, g@),
        step <= 0 || max <= min ==> r == 0,
        r >= 0,
{
    if step <= 0 || max <= min {
        return 0;
    }
    let len: usize = if f.len() <= g.len() {
        f.len()
    } else {
        g.len()
    };
    let mut acc: u128 = 0;
    let mut i: usize = 0;
    let mut pos: i128 = min as i128;
    proof {
        lemma_l2_acc_bounds(f@, g@, step as int, i as nat);
    }
    while i < len && pos <= max as i128
        invariant
            step > 0,
            min < max,
            i <= len,
            len == if f@.len() <= g@.len() { f@.len() } else { g@.len() },
            acc as int == l2_acc(f@, g@, step as int, i as nat),
            pos as int == min as int + i * (step as int),
            pos as int <= max as int + step as int,
            i > 0 ==> min as int + (i - 1) * (step as int) <= max as int,
        decreases len - i,
    {
        let dv: i128 = g[i] as i128 - f[i] as i128;
        let ad: u128 = if dv < 0 {
            (-dv) as u128
        } else {
            dv as u128
        };
        proof {
            assert(ad as int * ad as int <= u128::MAX) by (nonlinear_arith)
                requires 0 <= (ad as int), ad as int <= 18_446_744_073_709_551_615int,
            {}
        }
        let dd: u128 = ad * ad;
        proof {
            vstd::arithmetic::div_mod::lemma_fundamental_div_mod(u128::MAX as int, step as int);
            assert((u128::MAX as int) < ((u128::MAX as int) / (step as int) + 1) * (step as int)) by (nonlinear_arith)
                requires
                    0 < (step as int),
                    u128::MAX as int == (step as int) * ((u128::MAX as int) / (step as int)) + (u128::MAX as int) % (step as int),
                    (u128::MAX as int) % (step as int) < (step as int),
            {}
        }
        let term: u128 = if dd <= u128::MAX / (step as u128) {
            proof {
                assert(dd as int * step as int <= u128::MAX) by (nonlinear_arith)
                    requires
                        0 <= (dd as int),
                        0 < (step as int),
                        dd as int <= (u128::MAX as int) / (step as int),
                        u128::MAX as int >= (u128::MAX as int) / (step as int) * (step as int),
                {}
            }
            dd * (step as u128)
        } else {
            proof {
                assert(dd as int * step as int > u128::MAX) by (nonlinear_arith)
                    requires
                        0 < (step as int),
                        dd as int >= (u128::MAX as int) / (step as int) + 1,
                        (u128::MAX as int) < ((u128::MAX as int) / (step as int) + 1) * (step as int),
                {}
            }
            u128::MAX
        };
        proof {
            assert(term as int == sat_mul_u128(dd as int, step as int));
        }
        acc = if acc <= u128::MAX - term {
            acc + term
        } else {
            u128::MAX
        };
        i = i + 1;
        pos = pos + step as i128;
        proof {
            assert(min as int + (i - 1) * (step as int) + step as int == min as int + i * (step as int)) by (nonlinear_arith) {}
        }
    }
    proof {
        lemma_sample_loop_exit(min as int, max as int, step as int, f@, g@, i as int, len as int);
        lemma_l2_acc_bounds(f@, g@, step as int, i as nat);
    }
    let units: u128 = acc / (SCALE as u128);
    if units > i64::MAX as u128 {
        i64::MAX
    } else {
        units as i64
    }
}

/// Both discretized distances vanish when the two sampled curves agree at
/// every grid point, whatever the stepping.
pub proof fn lemma_discretized_distance_zero_when_equal(min: int, max: int, step: int, fs: Seq<i64>, gs: Seq<i64>)
    requires
        forall|j: int| 0 <= j < fs.len() && j < gs.len() ==> fs[j] == gs[j],
    ensures
        discretized_l1_spec(min, max, step, fs, gs) == 0,
        discretized_l2_spec(min, max, step, fs, gs) == 0,
{
    if step > 0 && min < max {
        let n = sample_count(min, max, step, fs, gs) as nat;
        assert(n <= fs.len() && n <= gs.len());
        lemma_acc_zero_when_equal(fs, gs, step, n);
    }
}

proof fn lemma_acc_zero_when_equal(fs: Seq<i64>, gs: Seq<i64>, step: int, n: nat)
    requires
        n <= fs.len(),
        n <= gs.len(),
        forall|j: int| 0 <= j < fs.len() && j < gs.len() ==> fs[j] == gs[j],
    ensures
        l1_acc(fs, gs, step, n) == 0,
        l2_acc(fs, gs, step, n) == 0,
    decreases n,
{
    if n > 0 {
        lemma_acc_zero_when_equal(fs, gs, step, (n - 1) as nat);
        assert(fs[n - 1] == gs[n - 1]);
        let d = abs(gs[n - 1] as int - fs[n - 1] as int) as int;
        assert(d == 0);
        assert(d * step == 0) by (nonlinear_arith)
            requires d == 0,
        {}
    }
}

/// The effective liquidity formula: base liquidity `l0`, optionally scaled by
/// the square root of the time left until expiry, capped at a million times
/// `l0` and at the machine word.
pub open spec fn effective_liquidity_spec(l0: u64, dynamic_on: bool, expiry_ts: i64, now_ts: i64) -> int {
    if !dynamic_on {
        l0 as int
    } else {
        let dt = if expiry_ts - now_ts < 1 { 1 } else { expiry_ts - now_ts };
        let root = sqrt_floor(dt as nat);
        let l = l0 * root;
        let l2 = if l == 0 { l0 as int } else { l };
        let cap = l0 * 1_000_000;
        let l3 = if l2 > cap { cap } else { l2 };
        if l3 > u64::MAX { u64::MAX as int } else { l3 }
    }
}

/// The mathematical floor of the square root.
pub open spec fn sqrt_floor(n: nat) -> nat {
    choose|r: nat| #[trigger] (r * r) <= n < (r + 1) * (r + 1)
}

proof fn lemma_sqrt_floor_unique(n: nat, r: nat)
    requires
        r * r <= n < (r + 1) * (r + 1),
    ensures
        sqrt_floor(n) == r,
{
    assert(exists|q: nat| #[trigger] (q * q) <= n < (q + 1) * (q + 1));
    let q = sqrt_floor(n);
    assert(q * q <= n < (q + 1) * (q + 1));
    if q < r {
        assert((q + 1) * (q + 1) <= r * r) by (nonlinear_arith)
            requires q + 1 <= r,
        {}
    }
    if r < q {
        assert((r + 1) * (r + 1) <= q * q) by (nonlinear_arith)
            requires r + 1 <= q,
        {}
    }
}

/// Effective AMM liquidity. With `dynamic_on` false the base constant `l0` is
/// returned unchanged; otherwise it grows with the square root of the time to
/// expiry (floored at one second), falls back to `l0` when that product is
/// zero, and is capped at `l0 * 1_000_000` to bound the reduction of slippage
/// far from expiry.
pub fn effective_liquidity(l0: u64, dynamic_on: bool, expiry_ts: i64, now_ts: i64) -> (r: u64)
    ensures
        r as int == effective_liquidity_spec(l0, dynamic_on, expiry_ts, now_ts),
        !dynamic_on ==> r == l0,
        dynamic_on ==> l0 <= r,
        dynamic_on && l0 * 1_000_000 <= u64::MAX ==> r <= l0 * 1_000_000,
{
    if !dynamic_on {
        return l0;
    }
    let diff: i128 = expiry_ts as i128 - now_ts as i128;
    let dt: u64 = if diff < 1 {
        1
    } else {
        diff as u64
    };
    let root: u64 = isqrt(dt);
    proof {
        lemma_sqrt_floor_unique(dt as nat, root as nat);
        assert(root >= 1) by (nonlinear_arith)
            requires root * root <= dt, dt >= 1, dt < (root + 1) * (root + 1),
        {}
        assert(root as int <= 4_294_967_296) by (nonlinear_arith)
            requires root * root <= dt, dt <= u64::MAX,
        {}
        assert(l0 as int * root as int <= u128::MAX) by (nonlinear_arith)
            requires l0 <= u64::MAX, root as int <= 4_294_967_296,
        {}
    }
    let l: u128 = l0 as u128 * root as u128;
    let l2: u128 = if l == 0 {
        l0 as u128
    } else {
        l
    };
    let cap: u128 = l0 as u128 * 1_000_000;
    let l3: u128 = if l2 > cap {
        cap
    } else {
        l2
    };
    proof {
        assert(l0 as int * root as int >= l0 as int * 1) by (nonlinear_arith)
            requires root as int >= 1,
        {}
        assert(l0 as int * 1_000_000 >= l0 as int * 1) by (nonlinear_arith) {}
    }
    if l3 > u64::MAX as u128 {
        u64::MAX
    } else {
        l3 as u64
    }
}

} // verus!
