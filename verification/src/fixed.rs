//! Fixed-point sample arithmetic.
//!
//! Audio samples are stored as `i64` values measured in millionths of
//! full scale: an amplitude of `1.0` is the constant [`SCALE`].  All
//! signal processing in this crate is exact integer arithmetic over
//! this representation; division rounds toward zero, as the helpers
//! here make precise.

use vstd::prelude::*;

verus! {

/// Number of fixed-point units in one unit of amplitude.
pub const SCALE: i64 = 1_000_000;

/// Largest magnitude a sample may carry.  Generous headroom above full
/// scale, so shaping filters never saturate on real signals.
pub const SAMPLE_MAX: i64 = 1_000_000_000_000;

/// Largest sample rate (in Hz) the library accepts.
pub const MAX_RATE: usize = 1_000_000;

/// Mathematical absolute value.
pub open spec fn abs_i(v: int) -> int {
    if v >= 0 {
        v
    } else {
        -v
    }
}

/// Division rounding toward zero, the rounding used throughout the
/// signal path.  Only meaningful for positive divisors.
pub open spec fn tdiv(a: int, b: int) -> int {
    if a >= 0 {
        a / b
    } else {
        -((-a) / b)
    }
}

/// Clamp `v` into `[lo, hi]`.
pub open spec fn clamp_i(v: int, lo: int, hi: int) -> int {
    if v < lo {
        lo
    } else if v > hi {
        hi
    } else {
        v
    }
}

/// Clamp a value into the admissible sample range.
pub open spec fn clamp_sample_i(v: int) -> int {
    clamp_i(v, -(SAMPLE_MAX as int), SAMPLE_MAX as int)
}

/// A sample value within the admissible range.
pub open spec fn sample_ok(v: i64) -> bool {
    -SAMPLE_MAX <= v <= SAMPLE_MAX
}

/// Every sample of a channel is within the admissible range.
pub open spec fn channel_ok(s: Seq<i64>) -> bool {
    forall|i: int| 0 <= i < s.len() ==> sample_ok(#[trigger] s[i])
}

/// Exec absolute value of a sample.
pub fn abs_sample(v: i64) -> (r: i64)
    requires
        v > i64::MIN,
    ensures
        r as int == abs_i(v as int),
        r >= 0,
{
    if v >= 0 {
        v
    } else {
        -v
    }
}

/// Exec division rounding toward zero.
pub fn div_trunc(a: i128, b: i128) -> (q: i128)
    requires
        b >= 1,
        a > i128::MIN,
    ensures
        q as int == tdiv(a as int, b as int),
{
    if a >= 0 {
        a / b
    } else {
        -((-a) / b)
    }
}

/// Exec clamp into the admissible sample range.
pub fn clamp_sample(v: i128) -> (r: i64)
    ensures
        r as int == clamp_sample_i(v as int),
        sample_ok(r),
{
    if v < -(SAMPLE_MAX as i128) {
        -SAMPLE_MAX
    } else if v > SAMPLE_MAX as i128 {
        SAMPLE_MAX
    } else {
        v as i64
    }
}

/// Truncating division never grows the magnitude of the dividend.
pub proof fn lemma_tdiv_mag(a: int, b: int)
    requires
        b >= 1,
    ensures
        abs_i(tdiv(a, b)) <= abs_i(a),
        a >= 0 ==> 0 <= tdiv(a, b) <= a,
        a <= 0 ==> a <= tdiv(a, b) <= 0,
{
    if a >= 0 {
        vstd::arithmetic::div_mod::lemma_div_is_ordered_by_denominator(a, 1, b);
        vstd::arithmetic::div_mod::lemma_div_pos_is_pos(a, b);
    } else {
        vstd::arithmetic::div_mod::lemma_div_is_ordered_by_denominator(-a, 1, b);
        vstd::arithmetic::div_mod::lemma_div_pos_is_pos(-a, b);
    }
}

/// Magnitude bound for a product, from bounds on the factors.
pub proof fn lemma_mul_bound(a: int, b: int, ma: int, mb: int)
    by (nonlinear_arith)
    requires
        abs_i(a) <= ma,
        abs_i(b) <= mb,
    ensures
        abs_i(a * b) <= ma * mb,
{
}

/// If `|s| <= d * m`, dividing `s` by `d` stays within `[-m, m]`.
pub proof fn lemma_tdiv_div_bound(s: int, d: int, m: int)
    requires
        d >= 1,
        m >= 0,
        abs_i(s) <= d * m,
    ensures
        abs_i(tdiv(s, d)) <= m,
{
    if s >= 0 {
        vstd::arithmetic::div_mod::lemma_div_is_ordered(s, d * m, d);
        vstd::arithmetic::div_mod::lemma_div_multiples_vanish(m, d);
        vstd::arithmetic::div_mod::lemma_div_pos_is_pos(s, d);
    } else {
        vstd::arithmetic::div_mod::lemma_div_is_ordered(-s, d * m, d);
        vstd::arithmetic::div_mod::lemma_div_multiples_vanish(m, d);
        vstd::arithmetic::div_mod::lemma_div_pos_is_pos(-s, d);
    }
}

/// Sum of the samples of `x` over the index range `[a, b)`.
pub open spec fn window_sum(x: Seq<i64>, a: int, b: int) -> int
    decreases b - a,
{
    if a >= b {
        0
    } else {
        x[a] + window_sum(x, a + 1, b)
    }
}

/// Sum of the magnitudes of the samples of `x` over `[a, b)`.
pub open spec fn abs_sum(x: Seq<i64>, a: int, b: int) -> int
    decreases b - a,
{
    if a >= b {
        0
    } else {
        abs_i(x[a] as int) + abs_sum(x, a + 1, b)
    }
}

/// A window sum grows on the right one sample at a time.
pub proof fn lemma_window_sum_extend(x: Seq<i64>, a: int, b: int)
    requires
        a <= b,
    ensures
        window_sum(x, a, b + 1) == window_sum(x, a, b) + x[b],
    decreases b - a,
{
    if a < b {
        lemma_window_sum_extend(x, a + 1, b);
    } else {
        assert(window_sum(x, b + 1, b + 1) == 0);
    }
}

/// A magnitude sum grows on the right one sample at a time.
pub proof fn lemma_abs_sum_extend(x: Seq<i64>, a: int, b: int)
    requires
        a <= b,
    ensures
        abs_sum(x, a, b + 1) == abs_sum(x, a, b) + abs_i(x[b] as int),
    decreases b - a,
{
    if a < b {
        lemma_abs_sum_extend(x, a + 1, b);
    } else {
        assert(abs_sum(x, b + 1, b + 1) == 0);
    }
}

/// Window sums over admissible samples are bounded by the window width.
pub proof fn lemma_window_sum_bound(x: Seq<i64>, a: int, b: int)
    requires
        0 <= a,
        b <= x.len(),
        forall|i: int| a <= i < b ==> sample_ok(#[trigger] x[i]),
    ensures
        abs_i(window_sum(x, a, b)) <= (if a <= b { (b - a) * (SAMPLE_MAX as int) } else { 0 }),
    decreases b - a,
{
    if a < b {
        lemma_window_sum_bound(x, a + 1, b);
        assert((b - a) * (SAMPLE_MAX as int) == (SAMPLE_MAX as int) + (b - a - 1) * (
        SAMPLE_MAX as int)) by (nonlinear_arith);
    }
}

/// Magnitude sums over admissible samples are bounded by the window width,
/// and are never negative.
pub proof fn lemma_abs_sum_bound(x: Seq<i64>, a: int, b: int)
    requires
        0 <= a,
        b <= x.len(),
        forall|i: int| a <= i < b ==> sample_ok(#[trigger] x[i]),
    ensures
        0 <= abs_sum(x, a, b),
        a <= b ==> abs_sum(x, a, b) <= (b - a) * (SAMPLE_MAX as int),
    decreases b - a,
{
    if a < b {
        lemma_abs_sum_bound(x, a + 1, b);
        assert((b - a) * (SAMPLE_MAX as int) == (SAMPLE_MAX as int) + (b - a - 1) * (
        SAMPLE_MAX as int)) by (nonlinear_arith);
    }
}

/// Copy a channel sample for sample.
pub fn copy_channel(samples: &Vec<i64>) -> (out: Vec<i64>)
    ensures
        out@ == samples@,
{
    let n = samples.len();
    let mut out: Vec<i64> = Vec::new();
    let mut i: usize = 0;
    while i < n
        invariant
            i <= n,
            n == samples@.len(),
            out@ == samples@.subrange(0, i as int),
        decreases n - i,
    {
        out.push(samples[i]);
        assert(out@ =~= samples@.subrange(0, i + 1));
        i += 1;
    }
    assert(out@ =~= samples@);
    out
}

/// Scaling by a fraction `num / den` with `num <= den` never grows the
/// magnitude of the scaled value.
pub proof fn lemma_tdiv_frac_mag(t: int, num: int, den: int)
    requires
        0 <= num <= den,
        den >= 1,
    ensures
        abs_i(tdiv(num * t, den)) <= abs_i(t),
        t >= 0 ==> 0 <= tdiv(num * t, den) <= t,
        t <= 0 ==> t <= tdiv(num * t, den) <= 0,
{
    if t >= 0 {
        assert(num * t <= den * t) by (nonlinear_arith)
            requires
                0 <= num <= den,
                t >= 0,
        ;
        vstd::arithmetic::div_mod::lemma_div_is_ordered(num * t, den * t, den);
        vstd::arithmetic::div_mod::lemma_div_multiples_vanish(t, den);
        vstd::arithmetic::div_mod::lemma_div_pos_is_pos(num * t, den);
        assert(num * t >= 0) by (nonlinear_arith)
            requires
                num >= 0,
                t >= 0,
        ;
    } else {
        assert(num * t == -(num * (-t))) by (nonlinear_arith);
        assert(num * (-t) <= den * (-t)) by (nonlinear_arith)
            requires
                0 <= num <= den,
                t <= 0,
        ;
        vstd::arithmetic::div_mod::lemma_div_is_ordered(num * (-t), den * (-t), den);
        vstd::arithmetic::div_mod::lemma_div_multiples_vanish(-t, den);
        vstd::arithmetic::div_mod::lemma_div_pos_is_pos(num * (-t), den);
        assert(num * (-t) >= 0) by (nonlinear_arith)
            requires
                num >= 0,
                t <= 0,
        ;
    }
}

} // verus!
