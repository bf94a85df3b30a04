//! Click and pop repair.
//!
//! With half-window `w` — the sample rate rounded to 1 ms — an interior
//! sample (index in `[w, len - w)`) is treated as a click when its
//! magnitude exceeds the fixed clip threshold of nine tenths of full
//! scale *and* exceeds three times the mean magnitude of the `w`
//! samples immediately before or after it.  A click is replaced by the
//! mean of those two neighborhood averages, carrying the sample's own
//! sign.  The pass walks the channel left to right and later windows
//! see earlier repairs.  Samples within `w` of either end are never
//! modified.

use vstd::prelude::*;

use crate::fixed::MAX_RATE;
use crate::fixed::SAMPLE_MAX;
use crate::fixed::abs_i;
use crate::fixed::abs_sample;
use crate::fixed::abs_sum;
use crate::fixed::channel_ok;
use crate::fixed::copy_channel;
use crate::fixed::lemma_abs_sum_bound;
use crate::fixed::lemma_abs_sum_extend;
use crate::fixed::lemma_tdiv_div_bound;

verus! {

/// Clip threshold: nine tenths of full scale.
pub const CLICK_LIMIT: i64 = 900_000;

/// Half-window of the repair pass: the sample rate scaled to 1 ms,
/// rounded to the nearest count.
pub open spec fn cr_half_window(sr: int) -> int {
    (sr + 500) / 1000
}

/// Mean magnitude of the `w` samples immediately before index `j`.
pub open spec fn cr_prev_avg(s: Seq<i64>, w: int, j: int) -> int {
    abs_sum(s, j - w, j) / w
}

/// Mean magnitude of the `w` samples immediately after index `j`.
pub open spec fn cr_next_avg(s: Seq<i64>, w: int, j: int) -> int {
    abs_sum(s, j + 1, j + w + 1) / w
}

/// Whether the sample at `j` counts as a click: above the clip
/// threshold and above three times either neighborhood average.
pub open spec fn cr_is_click(s: Seq<i64>, w: int, j: int) -> bool {
    let a = abs_i(s[j] as int);
    a > CLICK_LIMIT as int && (a > 3 * cr_prev_avg(s, w, j) || a > 3 * cr_next_avg(s, w, j))
}

/// The repaired value: the mean of the two neighborhood averages,
/// with the sign of the sample it replaces.
pub open spec fn cr_replacement(s: Seq<i64>, w: int, j: int) -> int {
    let m = (cr_prev_avg(s, w, j) + cr_next_avg(s, w, j)) / 2;
    if s[j] >= 0 {
        m
    } else {
        -m
    }
}

/// One step of the pass: index `j` is replaced only when it is an
/// interior index and counts as a click.
pub open spec fn cr_step(s: Seq<i64>, w: int, j: int) -> Seq<i64> {
    if w <= j < s.len() - w && cr_is_click(s, w, j) {
        s.update(j, cr_replacement(s, w, j) as i64)
    } else {
        s
    }
}

/// The channel after the pass has processed all indices below `j`,
/// starting from the first interior index `w`.
pub open spec fn cr_after(x: Seq<i64>, w: int, j: int) -> Seq<i64>
    decreases j - w,
{
    if j <= w {
        x
    } else {
        cr_step(cr_after(x, w, j - 1), w, j - 1)
    }
}

/// The whole channel after click repair.
pub open spec fn clicks_repaired(x: Seq<i64>, sr: int) -> Seq<i64> {
    let w = cr_half_window(sr);
    if w < 1 {
        x
    } else {
        cr_after(x, w, x.len() - w)
    }
}

/// The pass keeps the channel length.
pub proof fn lemma_cr_after_len(x: Seq<i64>, w: int, j: int)
    requires
        w >= 1,
    ensures
        cr_after(x, w, j).len() == x.len(),
    decreases j - w,
{
    if j > w {
        lemma_cr_after_len(x, w, j - 1);
    }
}

/// The pass never alters samples within `w` of either end of the
/// channel.
pub proof fn lemma_cr_after_edges(x: Seq<i64>, w: int, j: int)
    requires
        w >= 1,
    ensures
        forall|i: int|
            0 <= i < x.len() && (i < w || i >= x.len() - w) ==> #[trigger] cr_after(x, w, j)[i]
                == x[i],
    decreases j - w,
{
    if j > w {
        lemma_cr_after_edges(x, w, j - 1);
        lemma_cr_after_len(x, w, j - 1);
    }
}

/// Click repair over one channel.
///
/// The result is exactly the left-to-right repair pass described by
/// [`clicks_repaired`]; in particular the first and last `w` samples
/// are returned unchanged.
pub fn repair_channel(samples: &Vec<i64>, sample_rate: usize) -> (out: Vec<i64>)
    requires
        channel_ok(samples@),
        1 <= sample_rate <= MAX_RATE,
    ensures
        out@ == clicks_repaired(samples@, sample_rate as int),
        out@.len() == samples@.len(),
        channel_ok(out@),
        forall|i: int|
            0 <= i < samples@.len() && (i < cr_half_window(sample_rate as int) || i >= samples@.len()
                - cr_half_window(sample_rate as int)) ==> #[trigger] out@[i] == samples@[i],
{
    let n = samples.len();
    let w: usize = (sample_rate + 500) / 1000;
    let ghost w_g: int = w as int;
    let mut v = copy_channel(samples);
    if w == 0 || n < 2 * w {
        proof {
            if w >= 1 {
                lemma_cr_after_edges(samples@, w_g, n - w_g);
                assert(cr_after(samples@, w_g, n - w_g) =~= samples@);
            }
        }
        return v;
    }
    let mut j: usize = w;
    while j < n - w
        invariant
            1 <= w,
            2 * w <= n,
            w <= j <= n - w,
            n == samples@.len(),
            w_g == w as int,
            channel_ok(samples@),
            v@ == cr_after(samples@, w_g, j as int),
            v@.len() == n,
            channel_ok(v@),
        decreases n - w - j,
    {
        let ghost s = v@;
        // mean magnitude of the w samples before j
        let mut acc_p: i128 = 0;
        let mut k: usize = 0;
        while k < w
            invariant
                k <= w,
                w <= j,
                j < n <= v@.len(),
                channel_ok(v@),
                acc_p as int == abs_sum(v@, j - w_g, j - w_g + k),
                w_g == w as int,
                0 <= acc_p,
                acc_p as int <= k * (SAMPLE_MAX as int),
            decreases w - k,
        {
            proof {
                lemma_abs_sum_extend(v@, j - w_g, j - w_g + k);
                assert((k + 1) * (SAMPLE_MAX as int) == k * (SAMPLE_MAX as int) + (
                SAMPLE_MAX as int)) by (nonlinear_arith);
            }
            acc_p = acc_p + abs_sample(v[j - w + k]) as i128;
            k += 1;
        }
        // mean magnitude of the w samples after j
        let mut acc_n: i128 = 0;
        k = 0;
        while k < w
            invariant
                k <= w,
                w <= j,
                j + w < n,
                n <= v@.len(),
                channel_ok(v@),
                acc_n as int == abs_sum(v@, j + 1, j + 1 + k),
                w_g == w as int,
                0 <= acc_n,
                acc_n as int <= k * (SAMPLE_MAX as int),
            decreases w - k,
        {
            proof {
                lemma_abs_sum_extend(v@, j + 1, j + 1 + k);
                assert((k + 1) * (SAMPLE_MAX as int) == k * (SAMPLE_MAX as int) + (
                SAMPLE_MAX as int)) by (nonlinear_arith);
            }
            acc_n = acc_n + abs_sample(v[j + 1 + k]) as i128;
            k += 1;
        }
        let prev_avg: i128 = acc_p / (w as i128);
        let next_avg: i128 = acc_n / (w as i128);
        proof {
            lemma_abs_sum_bound(v@, j - w_g, j as int);
            lemma_abs_sum_bound(v@, j + 1, j + 1 + w_g);
            lemma_tdiv_div_bound(acc_p as int, w_g, SAMPLE_MAX as int);
            lemma_tdiv_div_bound(acc_n as int, w_g, SAMPLE_MAX as int);
            assert(prev_avg as int == cr_prev_avg(v@, w_g, j as int));
            assert(next_avg as int == cr_next_avg(v@, w_g, j as int));
        }
        let a: i128 = abs_sample(v[j]) as i128;
        if a > CLICK_LIMIT as i128 && (a > 3 * prev_avg || a > 3 * next_avg) {
            let m: i128 = (prev_avg + next_avg) / 2;
            proof {
                lemma_tdiv_div_bound(prev_avg as int + next_avg as int, 2, SAMPLE_MAX as int);
            }
            let r: i64 = if v[j] >= 0 {
                m as i64
            } else {
                -(m as i64)
            };
            v.set(j, r);
            proof {
                assert(v@ =~= cr_step(s, w_g, j as int));
            }
        } else {
            proof {
                assert(v@ =~= cr_step(s, w_g, j as int));
            }
        }
        j += 1;
    }
    proof {
        lemma_cr_after_edges(samples@, w_g, n - w_g);
    }
    v
}

} // verus!
