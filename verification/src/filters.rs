//! Single-pole IIR shaping filters.
//!
//! High-pass and low-pass are exponential (single-pole) filters.  With
//! `rc = 1/(2*pi*cutoff)` and `dt = 1/sample_rate`, the high-pass
//! coefficient is `alpha = rc/(rc+dt)` and the recurrence is
//! `y[n] = alpha*(y[n-1] + x[n] - x[n-1])`; the low-pass coefficient is
//! `alpha = dt/(rc+dt)` and the recurrence is
//! `y[n] = y[n-1] + alpha*(x[n] - y[n-1])`.  Both are causal,
//! single-pass, with state starting at zero.  In the fixed-point
//! representation `alpha` becomes an exact rational: writing `2*pi` as
//! `TWO_PI_NUM / TWO_PI_DEN`, the shared denominator is
//! `TWO_PI_DEN*sample_rate + TWO_PI_NUM*cutoff`, the high-pass
//! numerator `TWO_PI_DEN*sample_rate`, the low-pass numerator
//! `TWO_PI_NUM*cutoff`.  Each output sample is the recurrence value
//! rounded toward zero and clamped into the admissible sample range;
//! the clamp is far above full scale and is inert on real signals.
//!
//! A band-pass is the high-pass followed by the low-pass, in that
//! order; the composition is not commutative.

use vstd::prelude::*;

use crate::fixed::MAX_RATE;
use crate::fixed::SAMPLE_MAX;
use crate::fixed::channel_ok;
use crate::fixed::clamp_sample;
use crate::fixed::clamp_sample_i;
use crate::fixed::div_trunc;
use crate::fixed::lemma_tdiv_frac_mag;
use crate::fixed::sample_ok;
use crate::fixed::tdiv;

verus! {

/// Numerator of the rational approximation of `2*pi`.
pub const TWO_PI_NUM: i64 = 710;

/// Denominator of the rational approximation of `2*pi`.
pub const TWO_PI_DEN: i64 = 113;

/// Largest cutoff frequency (in Hz) the filters accept.
pub const MAX_CUTOFF: usize = 30_000;

/// High-pass coefficient numerator for a given sample rate.
pub open spec fn hp_alpha_num(sr: int) -> int {
    (TWO_PI_DEN as int) * sr
}

/// Low-pass coefficient numerator for a given cutoff.
pub open spec fn lp_alpha_num(cutoff: int) -> int {
    (TWO_PI_NUM as int) * cutoff
}

/// Shared coefficient denominator for a given sample rate and cutoff.
pub open spec fn alpha_den(sr: int, cutoff: int) -> int {
    (TWO_PI_DEN as int) * sr + (TWO_PI_NUM as int) * cutoff
}

/// Output of the high-pass recurrence at index `i`, for coefficient
/// `num / den`.  Filter state starts at zero, so the first output is
/// `alpha * x[0]`.
pub open spec fn hp_val(x: Seq<i64>, num: int, den: int, i: int) -> int
    decreases i,
{
    if i <= 0 {
        clamp_sample_i(tdiv(num * (x[0] as int), den))
    } else {
        clamp_sample_i(tdiv(num * (hp_val(x, num, den, i - 1) + x[i] - x[i - 1]), den))
    }
}

/// Output of the low-pass recurrence at index `i`, for coefficient
/// `num / den`.  Filter state starts at zero.
pub open spec fn lp_val(x: Seq<i64>, num: int, den: int, i: int) -> int
    decreases i,
{
    if i <= 0 {
        clamp_sample_i(tdiv(num * (x[0] as int), den))
    } else {
        let yp = lp_val(x, num, den, i - 1);
        clamp_sample_i(yp + tdiv(num * (x[i] - yp), den))
    }
}

/// The whole channel after high-pass filtering at `cutoff` Hz.
pub open spec fn hp_channel(x: Seq<i64>, sr: int, cutoff: int) -> Seq<i64> {
    Seq::new(x.len(), |i: int| hp_val(x, hp_alpha_num(sr), alpha_den(sr, cutoff), i) as i64)
}

/// The whole channel after low-pass filtering at `cutoff` Hz.
pub open spec fn lp_channel(x: Seq<i64>, sr: int, cutoff: int) -> Seq<i64> {
    Seq::new(x.len(), |i: int| lp_val(x, lp_alpha_num(cutoff), alpha_den(sr, cutoff), i) as i64)
}

/// The whole channel after band-pass filtering: high-pass at `low_cut`
/// first, then low-pass at `high_cut`.
pub open spec fn bp_channel(x: Seq<i64>, sr: int, low_cut: int, high_cut: int) -> Seq<i64> {
    lp_channel(hp_channel(x, sr, low_cut), sr, high_cut)
}

/// High-pass: attenuates content below `cutoff` Hz.
///
/// The result holds, index for index, the value of the high-pass
/// recurrence, rounded toward zero and clamped into the sample range.
pub fn apply_high_pass_filter(samples: &Vec<i64>, sample_rate: usize, cutoff: usize) -> (out: Vec<
    i64,
>)
    requires
        channel_ok(samples@),
        1 <= sample_rate <= MAX_RATE,
        1 <= cutoff <= MAX_CUTOFF,
    ensures
        out@ == hp_channel(samples@, sample_rate as int, cutoff as int),
        out@.len() == samples@.len(),
        channel_ok(out@),
{
    let ghost num_g: int = hp_alpha_num(sample_rate as int);
    let ghost den_g: int = alpha_den(sample_rate as int, cutoff as int);
    let num: i128 = (TWO_PI_DEN as i128) * (sample_rate as i128);
    let den: i128 = num + (TWO_PI_NUM as i128) * (cutoff as i128);
    let n = samples.len();
    let mut out: Vec<i64> = Vec::new();
    let mut prev_in: i64 = 0;
    let mut prev_out: i64 = 0;
    let mut i: usize = 0;
    while i < n
        invariant
            i <= n,
            n == samples@.len(),
            channel_ok(samples@),
            num as int == num_g,
            den as int == den_g,
            1 <= num <= den,
            den <= 0x7fff_ffff,
            out@.len() == i,
            forall|j: int| 0 <= j < i ==> #[trigger] out@[j] as int == hp_val(samples@, num_g, den_g, j),
            prev_in as int == (if i == 0 {
                0
            } else {
                samples@[i - 1] as int
            }),
            prev_out as int == (if i == 0 {
                0
            } else {
                hp_val(samples@, num_g, den_g, i - 1)
            }),
            sample_ok(prev_out),
        decreases n - i,
    {
        let x = samples[i];
        let t: i128 = prev_out as i128 + x as i128 - prev_in as i128;
        proof {
            crate::fixed::lemma_mul_bound(num as int, t as int, den as int, 3 * (SAMPLE_MAX as int));
        }
        let q = div_trunc(num * t, den);
        proof {
            lemma_tdiv_frac_mag(t as int, num as int, den as int);
        }
        let y = clamp_sample(q);
        assert(y as int == hp_val(samples@, num_g, den_g, i as int));
        out.push(y);
        prev_in = x;
        prev_out = y;
        i += 1;
    }
    assert(out@ =~= hp_channel(samples@, sample_rate as int, cutoff as int));
    out
}

/// Low-pass: attenuates content above `cutoff` Hz.
///
/// The result holds, index for index, the value of the low-pass
/// recurrence, rounded toward zero and clamped into the sample range.
pub fn apply_low_pass_filter(samples: &Vec<i64>, sample_rate: usize, cutoff: usize) -> (out: Vec<
    i64,
>)
    requires
        channel_ok(samples@),
        1 <= sample_rate <= MAX_RATE,
        1 <= cutoff <= MAX_CUTOFF,
    ensures
        out@ == lp_channel(samples@, sample_rate as int, cutoff as int),
        out@.len() == samples@.len(),
        channel_ok(out@),
{
    let ghost num_g: int = lp_alpha_num(cutoff as int);
    let ghost den_g: int = alpha_den(sample_rate as int, cutoff as int);
    let num: i128 = (TWO_PI_NUM as i128) * (cutoff as i128);
    let den: i128 = (TWO_PI_DEN as i128) * (sample_rate as i128) + num;
    let n = samples.len();
    let mut out: Vec<i64> = Vec::new();
    let mut prev_out: i64 = 0;
    let mut i: usize = 0;
    while i < n
        invariant
            i <= n,
            n == samples@.len(),
            channel_ok(samples@),
            num as int == num_g,
            den as int == den_g,
            1 <= num <= den,
            den <= 0x7fff_ffff,
            out@.len() == i,
            forall|j: int| 0 <= j < i ==> #[trigger] out@[j] as int == lp_val(samples@, num_g, den_g, j),
            prev_out as int == (if i == 0 {
                0
            } else {
                lp_val(samples@, num_g, den_g, i - 1)
            }),
            sample_ok(prev_out),
        decreases n - i,
    {
        let x = samples[i];
        let t: i128 = x as i128 - prev_out as i128;
        proof {
            crate::fixed::lemma_mul_bound(num as int, t as int, den as int, 3 * (SAMPLE_MAX as int));
        }
        let q = div_trunc(num * t, den);
        proof {
            lemma_tdiv_frac_mag(t as int, num as int, den as int);
        }
        let y = clamp_sample(prev_out as i128 + q);
        assert(y as int == lp_val(samples@, num_g, den_g, i as int));
        out.push(y);
        prev_out = y;
        i += 1;
    }
    assert(out@ =~= lp_channel(samples@, sample_rate as int, cutoff as int));
    out
}

/// Band-pass: high-pass at `low_cut`, then low-pass at `high_cut`.
/// The order of the two stages is part of the contract.
pub fn apply_band_pass_filter(
    samples: &Vec<i64>,
    sample_rate: usize,
    low_cut: usize,
    high_cut: usize,
) -> (out: Vec<i64>)
    requires
        channel_ok(samples@),
        1 <= sample_rate <= MAX_RATE,
        1 <= low_cut <= MAX_CUTOFF,
        1 <= high_cut <= MAX_CUTOFF,
    ensures
        out@ == bp_channel(samples@, sample_rate as int, low_cut as int, high_cut as int),
        out@.len() == samples@.len(),
        channel_ok(out@),
{
    let highed = apply_high_pass_filter(samples, sample_rate, low_cut);
    apply_low_pass_filter(&highed, sample_rate, high_cut)
}

} // verus!
