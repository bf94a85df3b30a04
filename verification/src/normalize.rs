//! Global normalization around model inference.
//!
//! Before inference the pipeline computes the mean and standard
//! deviation over the *entire* multichannel buffer (not per channel),
//! floors the deviation away from zero, and maps every sample through
//! `x' = (x - mean) / std_safe`; after inference the mapping is
//! inverted: `y = y' * std_safe + mean`.  In fixed point the division
//! keeps the extra factor [`SCALE`] so that a unit deviation maps full
//! scale to full scale.  The floor of `1e-8` on the deviation lies
//! below one fixed-point unit, so its integer counterpart is a floor
//! of one unit: division never sees zero.
//!
//! [`lemma_normalize_round_trip`] is the round-trip law: for any
//! admissible sample, denormalizing its normalized value lands within
//! `std_safe / SCALE + 1` units of the original — the fixed-point
//! counterpart of "equal within floating-point tolerance".

use vstd::prelude::*;

use crate::buffer::PcmBuffer;
use crate::fixed::SAMPLE_MAX;
use crate::fixed::SCALE;
use crate::fixed::abs_i;
use crate::fixed::channel_ok;
use crate::fixed::clamp_sample;
use crate::fixed::clamp_sample_i;
use crate::fixed::div_trunc;
use crate::fixed::lemma_mul_bound;
use crate::fixed::lemma_tdiv_div_bound;
use crate::fixed::lemma_tdiv_mag;
use crate::fixed::sample_ok;
use crate::fixed::tdiv;
use crate::fixed::window_sum;

verus! {

/// Largest total sample count (channels times frames) the normalizer
/// accepts; keeps every accumulator within machine range.
pub const MAX_SAMPLES: u64 = 1_099_511_627_776;

/// Sum of all samples of the first `c` channels.
pub open spec fn chan_total(b: PcmBuffer, c: int) -> int
    decreases c,
{
    if c <= 0 {
        0
    } else {
        chan_total(b, c - 1) + window_sum(b.samples@[c - 1]@, 0, b.length as int)
    }
}

/// Sum of squared deviations from `mean` over `[a, b)` of a channel.
pub open spec fn sq_sum(s: Seq<i64>, mean: int, a: int, b: int) -> int
    decreases b - a,
{
    if a >= b {
        0
    } else {
        (s[a] - mean) * (s[a] - mean) + sq_sum(s, mean, a + 1, b)
    }
}

/// Sum of squared deviations over the first `c` channels.
pub open spec fn chan_sq_total(b: PcmBuffer, mean: int, c: int) -> int
    decreases c,
{
    if c <= 0 {
        0
    } else {
        chan_sq_total(b, mean, c - 1) + sq_sum(b.samples@[c - 1]@, mean, 0, b.length as int)
    }
}

/// The global mean of a buffer, rounded toward zero; zero for an
/// empty buffer.
pub open spec fn mean_spec(b: PcmBuffer) -> int {
    let count = b.nb_channels * b.length;
    if count == 0 {
        0
    } else {
        tdiv(chan_total(b, b.nb_channels as int), count as int)
    }
}

/// The unbiased global variance of a buffer around `mean`; zero when
/// fewer than two samples exist.
pub open spec fn var_spec(b: PcmBuffer, mean: int) -> int {
    let count = b.nb_channels * b.length;
    if count < 2 {
        0
    } else {
        chan_sq_total(b, mean, b.nb_channels as int) / (count - 1)
    }
}

/// `r` is the integer square root of `n`.
pub open spec fn is_sqrt(n: int, r: int) -> bool {
    &&& r >= 0
    &&& r * r <= n
    &&& n < (r + 1) * (r + 1)
}

/// One normalized sample: the deviation from the mean, scaled so that
/// a deviation of `std_safe` maps to full scale.
pub open spec fn norm_sample_spec(x: int, mean: int, std_safe: int) -> int {
    tdiv((x - mean) * (SCALE as int), std_safe)
}

/// One denormalized sample: the inverse map, clamped back into the
/// admissible sample range.
pub open spec fn denorm_sample_spec(y: int, mean: int, std_safe: int) -> int {
    clamp_sample_i(tdiv(y * std_safe, SCALE as int) + mean)
}

/// Global mean and floored standard deviation of a buffer.
pub struct NormParams {
    /// Mean sample value, rounded toward zero.
    pub mean: i64,
    /// Standard deviation floored at one fixed-point unit.
    pub std_safe: i64,
}

/// Truncating division lands within one divisor of the dividend:
/// `|tdiv(a, b) * b - a| <= b - 1`.
pub proof fn lemma_tdiv_close(a: int, b: int)
    requires
        b >= 1,
    ensures
        abs_i(tdiv(a, b) * b - a) <= b - 1,
{
    if a >= 0 {
        let q = a / b;
        vstd::arithmetic::div_mod::lemma_fundamental_div_mod(a, b);
        vstd::arithmetic::div_mod::lemma_mod_division_less_than_divisor(a, b);
        vstd::arithmetic::mul::lemma_mul_is_commutative(b, q);
    } else {
        let q = (-a) / b;
        vstd::arithmetic::div_mod::lemma_fundamental_div_mod(-a, b);
        vstd::arithmetic::div_mod::lemma_mod_division_less_than_divisor(-a, b);
        vstd::arithmetic::mul::lemma_mul_is_commutative(b, q);
        assert((-q) * b == -(q * b)) by (nonlinear_arith);
    }
}

/// From `|e * big| <= m` conclude `|e| <= m / big`.
proof fn lemma_div_transfer(e: int, big: int, m: int)
    requires
        big >= 1,
        m >= 0,
        abs_i(e * big) <= m,
    ensures
        abs_i(e) <= m / big,
{
    vstd::arithmetic::mul::lemma_mul_is_commutative(e, big);
    vstd::arithmetic::div_mod::lemma_div_multiples_vanish(e, big);
    if e >= 0 {
        vstd::arithmetic::div_mod::lemma_div_is_ordered(e * big, m, big);
    } else {
        assert((-e) * big == -(e * big)) by (nonlinear_arith);
        vstd::arithmetic::mul::lemma_mul_is_commutative(-e, big);
        vstd::arithmetic::div_mod::lemma_div_multiples_vanish(-e, big);
        vstd::arithmetic::div_mod::lemma_div_is_ordered((-e) * big, m, big);
    }
}

/// Round-trip law of the normalizer: for any admissible sample and
/// any floored deviation, `denormalize(normalize(x))` lands within
/// `std_safe / SCALE + 1` fixed-point units of `x`.  This is the
/// fixed-point counterpart of round-tripping within floating-point
/// tolerance whenever the deviation is above its floor.
pub proof fn lemma_normalize_round_trip(x: int, mean: int, std_safe: int)
    requires
        abs_i(x) <= SAMPLE_MAX as int,
        abs_i(mean) <= SAMPLE_MAX as int,
        1 <= std_safe <= 3 * (SAMPLE_MAX as int),
    ensures
        abs_i(denorm_sample_spec(norm_sample_spec(x, mean, std_safe), mean, std_safe) - x)
            <= std_safe / (SCALE as int) + 1,
{
    let s = std_safe;
    let big = SCALE as int;
    let d = x - mean;
    let n0 = norm_sample_spec(x, mean, s);
    // n0 * s lands within s of d * SCALE
    lemma_tdiv_close(d * big, s);
    let t = tdiv(n0 * s, big);
    // t * SCALE lands within SCALE of n0 * s
    lemma_tdiv_close(n0 * s, big);
    // so t * SCALE lands within s + SCALE - 2 of d * SCALE
    let e = t - d;
    assert(e * big == t * big - d * big) by (nonlinear_arith)
        requires
            e == t - d,
    ;
    assert(abs_i(e * big) <= s + big - 2);
    lemma_div_transfer(e, big, s + big - 2);
    // (s + big - 2) / big <= s / big + 1
    vstd::arithmetic::div_mod::lemma_div_is_ordered(s + big - 2, s + big, big);
    vstd::arithmetic::div_mod::lemma_hoist_over_denominator(s, 1, big as nat);
    assert(1 * big == big) by (nonlinear_arith);
    assert(abs_i(e) <= s / big + 1);
    // clamping toward the admissible range never moves away from x
    let raw = t + mean;
    let fin = clamp_sample_i(raw);
    assert(abs_i(fin - x) <= abs_i(raw - x));
    assert(raw - x == e);
}

/// A squared-deviation sum grows on the right one sample at a time.
pub proof fn lemma_sq_sum_extend(x: Seq<i64>, mean: int, a: int, b: int)
    requires
        a <= b,
    ensures
        sq_sum(x, mean, a, b + 1) == sq_sum(x, mean, a, b) + (x[b] - mean) * (x[b] - mean),
    decreases b - a,
{
    if a < b {
        lemma_sq_sum_extend(x, mean, a + 1, b);
    } else {
        assert(sq_sum(x, mean, b + 1, b + 1) == 0);
    }
}

/// A square root of a value below `(3*SAMPLE_MAX)^2` is itself below
/// `3*SAMPLE_MAX`.
proof fn lemma_sqrt_bound(n: int, r: int)
    requires
        is_sqrt(n, r),
        n < 9 * (SAMPLE_MAX as int) * (SAMPLE_MAX as int),
    ensures
        0 <= r < 3 * (SAMPLE_MAX as int),
{
    if r >= 3 * (SAMPLE_MAX as int) {
        assert(r * r >= 9 * (SAMPLE_MAX as int) * (SAMPLE_MAX as int)) by (nonlinear_arith)
            requires
                r >= 3 * (SAMPLE_MAX as int),
        ;
    }
}

/// Integer square root by bisection.
pub fn isqrt(n: u128) -> (r: u64)
    requires
        n < 0x40000000000000000000000000000000,
    ensures
        is_sqrt(n as int, r as int),
{
    let mut lo: u128 = 0;
    let mut hi: u128 = 0x8000000000000000;
    proof {
        assert((0x8000000000000000 as int) * (0x8000000000000000 as int)
            == 0x40000000000000000000000000000000) by (nonlinear_arith);
    }
    while hi - lo > 1
        invariant
            0 <= lo < hi <= 0x8000000000000000,
            (lo as int) * (lo as int) <= n as int,
            (n as int) < (hi as int) * (hi as int),
        decreases hi - lo,
    {
        let mid: u128 = lo + (hi - lo) / 2;
        proof {
            lemma_mul_bound(mid as int, mid as int, 0x8000000000000000, 0x8000000000000000);
            assert((0x8000000000000000 as int) * (0x8000000000000000 as int) <= u128::MAX as int)
                by (nonlinear_arith);
        }
        if mid * mid <= n {
            lo = mid;
        } else {
            hi = mid;
        }
    }
    proof {
        lemma_mul_bound(lo as int, lo as int, 0x8000000000000000, 0x8000000000000000);
    }
    lo as u64
}

/// Compute the global mean and floored standard deviation of a
/// buffer: the mean and unbiased standard deviation over every sample
/// of every channel, the deviation floored one unit above zero.
pub fn compute_norm_params(b: &PcmBuffer) -> (p: NormParams)
    requires
        b.wf(),
        (b.nb_channels as int) * (b.length as int) <= MAX_SAMPLES as int,
    ensures
        p.mean as int == mean_spec(*b),
        abs_i(p.mean as int) <= SAMPLE_MAX as int,
        1 <= p.std_safe <= 3 * SAMPLE_MAX,
        ({
            let v = var_spec(*b, p.mean as int);
            exists|r: int|
                is_sqrt(v, r) && p.std_safe as int == (if r == 0 {
                    1int
                } else {
                    r
                })
        }),
{
    let nch = b.nb_channels;
    let len = b.length;
    proof {
        assert(0 <= (nch as int) * (len as int)) by (nonlinear_arith);
    }
    let count: u64 = (nch as u64) * (len as u64);
    if count == 0 {
        proof {
            assert(is_sqrt(0int, 0int)) by (nonlinear_arith);
            assert(var_spec(*b, 0) == 0);
        }
        return NormParams { mean: 0, std_safe: 1 };
    }
    // pass one: the global sum
    let mut total: i128 = 0;
    let mut c: usize = 0;
    while c < nch
        invariant
            c <= nch,
            b.wf(),
            nch == b.nb_channels,
            len == b.length,
            (nch as int) * (len as int) <= MAX_SAMPLES as int,
            total as int == chan_total(*b, c as int),
            abs_i(total as int) <= (c as int) * (len as int) * (SAMPLE_MAX as int),
            0 <= (c as int) * (len as int) * (SAMPLE_MAX as int) <= (MAX_SAMPLES as int) * (
            SAMPLE_MAX as int),
        decreases nch - c,
    {
        proof {
            assert(len as int <= (nch as int) * (len as int)) by (nonlinear_arith)
                requires
                    1 <= nch as int,
                    0 <= len as int,
            ;
        }
        let ch = &b.samples[c];
        let mut acc: i128 = 0;
        let mut i: usize = 0;
        while i < len
            invariant
                i <= len,
                b.wf(),
                c < nch == b.nb_channels,
                len == b.length,
                len as int <= MAX_SAMPLES as int,
                acc as int == window_sum(b.samples@[c as int]@, 0, i as int),
                abs_i(acc as int) <= (i as int) * (SAMPLE_MAX as int),
                0 <= (i as int) * (SAMPLE_MAX as int) <= (MAX_SAMPLES as int) * (SAMPLE_MAX as int),
                ch == &b.samples[c as int],
            decreases len - i,
        {
            proof {
                crate::fixed::lemma_window_sum_extend(b.samples@[c as int]@, 0, i as int);
                assert((i + 1) * (SAMPLE_MAX as int) == (i as int) * (SAMPLE_MAX as int) + (
                SAMPLE_MAX as int)) by (nonlinear_arith);
                assert((i + 1) * (SAMPLE_MAX as int) <= (MAX_SAMPLES as int) * (
                SAMPLE_MAX as int)) by (nonlinear_arith)
                    requires
                        i + 1 <= MAX_SAMPLES as int,
                ;
            }
            acc = acc + ch[i] as i128;
            i += 1;
        }
        proof {
            assert((c + 1) * (len as int) * (SAMPLE_MAX as int) == (c as int) * (len as int) * (
            SAMPLE_MAX as int) + (len as int) * (SAMPLE_MAX as int)) by (nonlinear_arith);
            assert(0 <= (c + 1) * (len as int) <= (nch as int) * (len as int)) by (nonlinear_arith)
                requires
                    0 <= c + 1 <= nch as int,
                    0 <= len as int,
            ;
            assert((c + 1) * (len as int) * (SAMPLE_MAX as int) <= (MAX_SAMPLES as int) * (
            SAMPLE_MAX as int)) by (nonlinear_arith)
                requires
                    0 <= (c + 1) * (len as int) <= MAX_SAMPLES as int,
            ;
        }
        total = total + acc;
        c += 1;
    }
    proof {
        lemma_tdiv_mag(total as int, count as int);
        crate::fixed::lemma_tdiv_div_bound(total as int, count as int, SAMPLE_MAX as int);
    }
    let mean_i: i128 = div_trunc(total, count as i128);
    let mean: i64 = mean_i as i64;

    // pass two: squared deviations
    let mut sq: i128 = 0;
    c = 0;
    while c < nch
        invariant
            c <= nch,
            b.wf(),
            nch == b.nb_channels,
            len == b.length,
            (nch as int) * (len as int) <= MAX_SAMPLES as int,
            abs_i(mean as int) <= SAMPLE_MAX as int,
            sq as int == chan_sq_total(*b, mean as int, c as int),
            0 <= sq,
            sq as int <= (c as int) * (len as int) * (4 * (SAMPLE_MAX as int) * (
            SAMPLE_MAX as int)),
            0 <= (c as int) * (len as int) * (4 * (SAMPLE_MAX as int) * (SAMPLE_MAX as int)) <= (
            MAX_SAMPLES as int) * (4 * (SAMPLE_MAX as int) * (SAMPLE_MAX as int)),
        decreases nch - c,
    {
        proof {
            assert(len as int <= (nch as int) * (len as int)) by (nonlinear_arith)
                requires
                    1 <= nch as int,
                    0 <= len as int,
            ;
        }
        let ch = &b.samples[c];
        let mut acc: i128 = 0;
        let mut i: usize = 0;
        while i < len
            invariant
                i <= len,
                b.wf(),
                c < nch == b.nb_channels,
                len == b.length,
                len as int <= MAX_SAMPLES as int,
                abs_i(mean as int) <= SAMPLE_MAX as int,
                acc as int == sq_sum(b.samples@[c as int]@, mean as int, 0, i as int),
                0 <= acc,
                acc as int <= (i as int) * (4 * (SAMPLE_MAX as int) * (SAMPLE_MAX as int)),
                0 <= (i as int) * (4 * (SAMPLE_MAX as int) * (SAMPLE_MAX as int)) <= (
                MAX_SAMPLES as int) * (4 * (SAMPLE_MAX as int) * (SAMPLE_MAX as int)),
                ch == &b.samples[c as int],
            decreases len - i,
        {
            let ghost xv: int = b.samples@[c as int]@[i as int] as int;
            proof {
                lemma_sq_sum_extend(b.samples@[c as int]@, mean as int, 0, i as int);
                assert(sample_ok(b.samples@[c as int]@[i as int]));
                lemma_mul_bound(
                    xv - mean as int,
                    xv - mean as int,
                    2 * (SAMPLE_MAX as int),
                    2 * (SAMPLE_MAX as int),
                );
                assert((xv - mean as int) * (xv - mean as int) >= 0) by (nonlinear_arith);
                assert(2 * (SAMPLE_MAX as int) * (2 * (SAMPLE_MAX as int)) == 4 * (
                SAMPLE_MAX as int) * (SAMPLE_MAX as int)) by (nonlinear_arith);
                assert((i + 1) * (4 * (SAMPLE_MAX as int) * (SAMPLE_MAX as int)) == (i as int) * (4
                    * (SAMPLE_MAX as int) * (SAMPLE_MAX as int)) + 4 * (SAMPLE_MAX as int) * (
                SAMPLE_MAX as int)) by (nonlinear_arith);
                assert((i + 1) * (4 * (SAMPLE_MAX as int) * (SAMPLE_MAX as int)) <= (
                MAX_SAMPLES as int) * (4 * (SAMPLE_MAX as int) * (SAMPLE_MAX as int)))
                    by (nonlinear_arith)
                    requires
                        i + 1 <= MAX_SAMPLES as int,
                ;
            }
            let d: i128 = ch[i] as i128 - mean as i128;
            acc = acc + d * d;
            i += 1;
        }
        proof {
            assert((c + 1) * (len as int) * (4 * (SAMPLE_MAX as int) * (SAMPLE_MAX as int)) == (
            c as int) * (len as int) * (4 * (SAMPLE_MAX as int) * (SAMPLE_MAX as int)) + (
            len as int) * (4 * (SAMPLE_MAX as int) * (SAMPLE_MAX as int))) by (nonlinear_arith);
            assert(0 <= (c + 1) * (len as int) <= (nch as int) * (len as int)) by (nonlinear_arith)
                requires
                    0 <= c + 1 <= nch as int,
                    0 <= len as int,
            ;
            assert((c + 1) * (len as int) * (4 * (SAMPLE_MAX as int) * (SAMPLE_MAX as int)) <= (
            MAX_SAMPLES as int) * (4 * (SAMPLE_MAX as int) * (SAMPLE_MAX as int)))
                by (nonlinear_arith)
                requires
                    0 <= (c + 1) * (len as int) <= MAX_SAMPLES as int,
            ;
        }
        sq = sq + acc;
        c += 1;
    }
    let var: i128 = if count < 2 {
        0
    } else {
        sq / (count as i128 - 1)
    };
    proof {
        if count >= 2 {
            // sq <= count * 4*SM^2 <= (count - 1) * 8*SM^2, so var <= 8*SM^2
            assert((count as int) * (4 * (SAMPLE_MAX as int) * (SAMPLE_MAX as int)) <= ((
            count as int) - 1) * (8 * (SAMPLE_MAX as int) * (SAMPLE_MAX as int)))
                by (nonlinear_arith)
                requires
                    count as int >= 2,
            ;
            assert(sq as int <= (count as int) * (4 * (SAMPLE_MAX as int) * (SAMPLE_MAX as int)))
                by (nonlinear_arith)
                requires
                    sq as int <= ((nch as int) * (len as int)) * (4 * (SAMPLE_MAX as int) * (
                    SAMPLE_MAX as int)),
                    count as int == (nch as int) * (len as int),
            ;
            lemma_tdiv_div_bound(
                sq as int,
                count as int - 1,
                8 * (SAMPLE_MAX as int) * (SAMPLE_MAX as int),
            );
        }
        assert((var as int) < 9 * (SAMPLE_MAX as int) * (SAMPLE_MAX as int)) by (nonlinear_arith)
            requires
                0 <= var as int <= 8 * (SAMPLE_MAX as int) * (SAMPLE_MAX as int),
        ;
        assert(9 * (SAMPLE_MAX as int) * (SAMPLE_MAX as int)
            < 0x40000000000000000000000000000000) by (nonlinear_arith);
    }
    let std_raw: u64 = isqrt(var as u128);
    proof {
        lemma_sqrt_bound(var as int, std_raw as int);
        if count >= 2 {
            assert(var as int == var_spec(*b, mean as int));
        } else {
            assert(var_spec(*b, mean as int) == 0);
        }
    }
    let std_safe: i64 = if std_raw == 0 {
        1
    } else {
        std_raw as i64
    };
    NormParams { mean, std_safe }
}

/// Normalize every channel of a buffer around the given parameters.
/// The result is a plain channel matrix — its values may far exceed
/// full scale when the deviation is small, exactly as the real-valued
/// map allows.
pub fn normalize_buffer(b: &PcmBuffer, p: &NormParams) -> (out: Vec<Vec<i64>>)
    requires
        b.wf(),
        abs_i(p.mean as int) <= SAMPLE_MAX as int,
        1 <= p.std_safe <= 3 * SAMPLE_MAX,
    ensures
        out@.len() == b.nb_channels,
        forall|c: int| 0 <= c < out@.len() ==> (#[trigger] out@[c])@.len() == b.length,
        forall|c: int, i: int|
            0 <= c < out@.len() && 0 <= i < b.length ==> (#[trigger] out@[c]@[i]) as int
                == norm_sample_spec(b.at(c, i), p.mean as int, p.std_safe as int),
{
    let nch = b.nb_channels;
    let len = b.length;
    let mut out: Vec<Vec<i64>> = Vec::new();
    let mut c: usize = 0;
    while c < nch
        invariant
            c <= nch,
            b.wf(),
            nch == b.nb_channels,
            len == b.length,
            abs_i(p.mean as int) <= SAMPLE_MAX as int,
            1 <= p.std_safe <= 3 * SAMPLE_MAX,
            out@.len() == c,
            forall|d: int| 0 <= d < c ==> (#[trigger] out@[d])@.len() == len,
            forall|d: int, i: int|
                0 <= d < c && 0 <= i < len ==> (#[trigger] out@[d]@[i]) as int == norm_sample_spec(
                    b.at(d, i),
                    p.mean as int,
                    p.std_safe as int,
                ),
        decreases nch - c,
    {
        let ch = &b.samples[c];
        let mut row: Vec<i64> = Vec::new();
        let mut i: usize = 0;
        while i < len
            invariant
                i <= len,
                b.wf(),
                c < nch == b.nb_channels,
                len == b.length,
                abs_i(p.mean as int) <= SAMPLE_MAX as int,
                1 <= p.std_safe <= 3 * SAMPLE_MAX,
                ch == &b.samples[c as int],
                row@.len() == i,
                forall|j: int|
                    0 <= j < i ==> (#[trigger] row@[j]) as int == norm_sample_spec(
                        b.at(c as int, j),
                        p.mean as int,
                        p.std_safe as int,
                    ),
            decreases len - i,
        {
            proof {
                assert(sample_ok(b.samples@[c as int]@[i as int]));
            }
            let d: i128 = ch[i] as i128 - p.mean as i128;
            proof {
                lemma_mul_bound(d as int, SCALE as int, 2 * (SAMPLE_MAX as int), SCALE as int);
                assert(2 * (SAMPLE_MAX as int) * (SCALE as int) < i128::MAX as int)
                    by (nonlinear_arith);
            }
            let scaled: i128 = d * (SCALE as i128);
            let q: i128 = div_trunc(scaled, p.std_safe as i128);
            proof {
                lemma_tdiv_mag(scaled as int, p.std_safe as int);
            }
            row.push(q as i64);
            i += 1;
        }
        out.push(row);
        c += 1;
    }
    out
}

/// Invert the normalization over a plain channel matrix, clamping
/// each result back into the admissible sample range.  Total for any
/// input values, whatever the inference stage produced.
pub fn denormalize_channels(raw: &Vec<Vec<i64>>, p: &NormParams) -> (out: Vec<Vec<i64>>)
    requires
        abs_i(p.mean as int) <= SAMPLE_MAX as int,
        1 <= p.std_safe <= 3 * SAMPLE_MAX,
    ensures
        out@.len() == raw@.len(),
        forall|c: int| 0 <= c < out@.len() ==> (#[trigger] out@[c])@.len() == raw@[c]@.len(),
        forall|c: int, i: int|
            0 <= c < out@.len() && 0 <= i < raw@[c]@.len() ==> (#[trigger] out@[c]@[i]) as int
                == denorm_sample_spec(raw@[c]@[i] as int, p.mean as int, p.std_safe as int),
        forall|c: int| 0 <= c < out@.len() ==> channel_ok((#[trigger] out@[c])@),
{
    let nch = raw.len();
    let mut out: Vec<Vec<i64>> = Vec::new();
    let mut c: usize = 0;
    while c < nch
        invariant
            c <= nch,
            nch == raw@.len(),
            abs_i(p.mean as int) <= SAMPLE_MAX as int,
            1 <= p.std_safe <= 3 * SAMPLE_MAX,
            out@.len() == c,
            forall|d: int| 0 <= d < c ==> (#[trigger] out@[d])@.len() == raw@[d]@.len(),
            forall|d: int, i: int|
                0 <= d < c && 0 <= i < raw@[d]@.len() ==> (#[trigger] out@[d]@[i]) as int
                    == denorm_sample_spec(raw@[d]@[i] as int, p.mean as int, p.std_safe as int),
            forall|d: int| 0 <= d < c ==> channel_ok((#[trigger] out@[d])@),
        decreases nch - c,
    {
        let ch = &raw[c];
        let len = ch.len();
        let mut row: Vec<i64> = Vec::new();
        let mut i: usize = 0;
        while i < len
            invariant
                i <= len,
                c < nch == raw@.len(),
                len == raw@[c as int]@.len(),
                ch == &raw[c as int],
                abs_i(p.mean as int) <= SAMPLE_MAX as int,
                1 <= p.std_safe <= 3 * SAMPLE_MAX,
                row@.len() == i,
                forall|j: int|
                    0 <= j < i ==> (#[trigger] row@[j]) as int == denorm_sample_spec(
                        raw@[c as int]@[j] as int,
                        p.mean as int,
                        p.std_safe as int,
                    ),
                channel_ok(row@),
            decreases len - i,
        {
            proof {
                lemma_mul_bound(
                    ch@[i as int] as int,
                    p.std_safe as int,
                    0x8000000000000000,
                    3 * (SAMPLE_MAX as int),
                );
                assert(0x8000000000000000 * (3 * (SAMPLE_MAX as int)) < i128::MAX as int)
                    by (nonlinear_arith);
            }
            let scaled: i128 = (ch[i] as i128) * (p.std_safe as i128);
            let q: i128 = div_trunc(scaled, SCALE as i128);
            proof {
                lemma_tdiv_mag(scaled as int, SCALE as int);
            }
            let y = clamp_sample(q + p.mean as i128);
            row.push(y);
            i += 1;
        }
        out.push(row);
        c += 1;
    }
    out
}

} // verus!
