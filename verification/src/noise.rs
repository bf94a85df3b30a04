//! Moving-average noise reduction.
//!
//! A centered moving average with half-window `w` — the sample rate
//! rounded to 10 ms — smooths the channel; the output blends
//! `0.7 * original + 0.3 * smoothed` over the interior region, while
//! the first and last `w` samples are left unfiltered.  Channels
//! shorter than `2*w` (and degenerate half-windows below 2) are
//! returned unchanged.

use vstd::prelude::*;

use crate::fixed::MAX_RATE;
use crate::fixed::SAMPLE_MAX;
use crate::fixed::abs_i;
use crate::fixed::channel_ok;
use crate::fixed::copy_channel;
use crate::fixed::div_trunc;
use crate::fixed::lemma_mul_bound;
use crate::fixed::lemma_tdiv_div_bound;
use crate::fixed::lemma_window_sum_bound;
use crate::fixed::lemma_window_sum_extend;
use crate::fixed::tdiv;
use crate::fixed::window_sum;

verus! {

/// Half-window of the noise-reduction average: the sample rate scaled
/// to 10 ms, rounded to the nearest count.
pub open spec fn nr_half_window(sr: int) -> int {
    (sr + 50) / 100
}

/// Moving average of the `2*w` samples around index `i`, rounded
/// toward zero.
pub open spec fn nr_smoothed(x: Seq<i64>, w: int, i: int) -> int {
    tdiv(window_sum(x, i - w, i + w), 2 * w)
}

/// One output sample: edges are untouched, interior samples blend
/// seven tenths of the original with three tenths of the average.
pub open spec fn nr_val(x: Seq<i64>, w: int, i: int) -> int {
    if i < w || i >= x.len() - w {
        x[i] as int
    } else {
        tdiv(7 * (x[i] as int) + 3 * nr_smoothed(x, w, i), 10)
    }
}

/// The whole channel after noise reduction.  The pass is skipped —
/// the channel is returned unchanged — when the half-window is
/// degenerate or the channel is shorter than `2*w`.
pub open spec fn noise_reduced(x: Seq<i64>, sr: int) -> Seq<i64> {
    let w = nr_half_window(sr);
    if w < 2 || x.len() < 2 * w {
        x
    } else {
        Seq::new(x.len(), |i: int| nr_val(x, w, i) as i64)
    }
}

/// Interior blends stay within the admissible sample range.
pub proof fn lemma_nr_val_ok(x: Seq<i64>, w: int, i: int)
    requires
        channel_ok(x),
        0 <= i < x.len(),
        w >= 1,
        w <= i,
        i + w <= x.len(),
    ensures
        abs_i(nr_val(x, w, i)) <= SAMPLE_MAX as int,
{
    lemma_window_sum_bound(x, i - w, i + w);
    lemma_tdiv_div_bound(window_sum(x, i - w, i + w), 2 * w, SAMPLE_MAX as int);
    let s = nr_smoothed(x, w, i);
    assert(abs_i(7 * (x[i] as int) + 3 * s) <= 10 * (SAMPLE_MAX as int));
    lemma_tdiv_div_bound(7 * (x[i] as int) + 3 * s, 10, SAMPLE_MAX as int);
}

/// Noise reduction; a strict no-op on channels shorter than twice the
/// half-window.
pub fn apply_noise_reduction(samples: &Vec<i64>, sample_rate: usize) -> (out: Vec<i64>)
    requires
        channel_ok(samples@),
        1 <= sample_rate <= MAX_RATE,
    ensures
        out@ == noise_reduced(samples@, sample_rate as int),
        out@.len() == samples@.len(),
        channel_ok(out@),
        samples@.len() < 2 * nr_half_window(sample_rate as int) ==> out@ == samples@,
{
    let n = samples.len();
    let w: usize = (sample_rate + 50) / 100;
    if w < 2 || n < 2 * w {
        let out = copy_channel(samples);
        return out;
    }
    let ghost w_g: int = w as int;
    let mut out: Vec<i64> = Vec::new();
    let mut i: usize = 0;
    while i < n
        invariant
            i <= n,
            n == samples@.len(),
            channel_ok(samples@),
            2 <= w,
            w_g == w as int,
            w_g == nr_half_window(sample_rate as int),
            2 * w <= n,
            n <= usize::MAX,
            out@.len() == i,
            forall|j: int| 0 <= j < i ==> #[trigger] out@[j] as int == nr_val(samples@, w_g, j),
            channel_ok(out@),
        decreases n - i,
    {
        if i < w || i >= n - w {
            out.push(samples[i]);
        } else {
            // moving-average of the 2*w samples around i
            let mut acc: i128 = 0;
            let mut k: usize = 0;
            while k < 2 * w
                invariant
                    k <= 2 * w,
                    w <= i,
                    i + w <= n,
                    n == samples@.len(),
                    channel_ok(samples@),
                    acc as int == window_sum(samples@, i - w_g, i - w_g + k),
                    w_g == w as int,
                    abs_i(acc as int) <= k * (SAMPLE_MAX as int),
                decreases 2 * w - k,
            {
                proof {
                    lemma_window_sum_extend(samples@, i - w_g, i - w_g + k);
                    assert((k + 1) * (SAMPLE_MAX as int) == k * (SAMPLE_MAX as int) + (
                    SAMPLE_MAX as int)) by (nonlinear_arith);
                }
                acc = acc + samples[i - w + k] as i128;
                k += 1;
            }
            proof {
                lemma_window_sum_bound(samples@, i - w_g, i + w_g);
                lemma_mul_bound(2 * w_g, SAMPLE_MAX as int, 2 * w_g, SAMPLE_MAX as int);
                lemma_tdiv_div_bound(acc as int, 2 * w_g, SAMPLE_MAX as int);
            }
            let smoothed: i128 = div_trunc(acc, 2 * w as i128);
            proof {
                lemma_nr_val_ok(samples@, w_g, i as int);
                lemma_tdiv_div_bound(
                    7 * (samples@[i as int] as int) + 3 * (smoothed as int),
                    10,
                    SAMPLE_MAX as int,
                );
            }
            let blended: i128 = div_trunc(7 * (samples[i] as i128) + 3 * smoothed, 10);
            out.push(blended as i64);
        }
        i += 1;
    }
    assert(out@ =~= noise_reduced(samples@, sample_rate as int));
    out
}

} // verus!
