//! Multichannel sample buffers.
//!
//! A [`PcmBuffer`] holds one fixed-point sample sequence per channel.
//! Well-formedness ties the redundant `nb_channels` and `length`
//! fields to the actual sequences, keeps every sample admissible and
//! bounds the sample rate.

use vstd::prelude::*;

use crate::fixed::MAX_RATE;
use crate::fixed::SAMPLE_MAX;
use crate::fixed::abs_i;
use crate::fixed::channel_ok;
use crate::fixed::div_trunc;
use crate::fixed::lemma_tdiv_div_bound;
use crate::fixed::tdiv;

verus! {

/// A decoded stretch of audio: per-channel fixed-point samples.
pub struct PcmBuffer {
    /// One sample sequence per channel; all of length `length`.
    pub samples: Vec<Vec<i64>>,
    /// Sample rate in Hz.
    pub sample_rate: usize,
    /// Number of channels; equals `samples.len()`.
    pub nb_channels: usize,
    /// Number of frames; equals the length of every channel.
    pub length: usize,
}

impl PcmBuffer {
    /// Well-formedness: consistent shape, admissible samples, sane rate.
    pub open spec fn wf(self) -> bool {
        &&& self.nb_channels == self.samples@.len()
        &&& 1 <= self.sample_rate <= MAX_RATE
        &&& forall|c: int|
            0 <= c < self.samples@.len() ==> (#[trigger] self.samples@[c])@.len() == self.length
        &&& forall|c: int| 0 <= c < self.samples@.len() ==> channel_ok((#[trigger] self.samples@[c])@)
    }

    /// The sample at channel `c`, frame `i`.
    pub open spec fn at(self, c: int, i: int) -> int {
        self.samples@[c]@[i] as int
    }
}

/// Sum of the samples of the first `c` channels at frame `i`.
pub open spec fn col_sum(b: PcmBuffer, c: int, i: int) -> int
    decreases c,
{
    if c <= 0 {
        0
    } else {
        col_sum(b, c - 1, i) + b.at(c - 1, i)
    }
}

/// The mono mixdown at frame `i`: the arithmetic mean over all
/// channels, rounded toward zero.
pub open spec fn mono_val(b: PcmBuffer, i: int) -> int {
    tdiv(col_sum(b, b.nb_channels as int, i), b.nb_channels as int)
}

/// The mono mixdown of a buffer as a channel of its own.
pub open spec fn mono_channel(b: PcmBuffer) -> Seq<i64> {
    Seq::new(b.length as nat, |i: int| mono_val(b, i) as i64)
}

/// Column sums over a well-formed buffer are bounded by the number of
/// channels summed.
pub proof fn lemma_col_sum_bound(b: PcmBuffer, c: int, i: int)
    requires
        b.wf(),
        c <= b.nb_channels,
        0 <= i < b.length,
    ensures
        abs_i(col_sum(b, c, i)) <= (if c >= 0 { c * (SAMPLE_MAX as int) } else { 0 }),
    decreases c,
{
    if c > 0 {
        lemma_col_sum_bound(b, c - 1, i);
        assert(c * (SAMPLE_MAX as int) == (c - 1) * (SAMPLE_MAX as int) + (
        SAMPLE_MAX as int)) by (nonlinear_arith);
    }
}

/// Downmix to mono: the per-frame arithmetic mean across channels.
pub fn downmix_mono(b: &PcmBuffer) -> (out: Vec<i64>)
    requires
        b.wf(),
        b.nb_channels >= 1,
    ensures
        out@.len() == b.length,
        forall|i: int| 0 <= i < b.length ==> #[trigger] out@[i] as int == mono_val(*b, i),
        channel_ok(out@),
{
    let n = b.length;
    let nch = b.nb_channels;
    let mut out: Vec<i64> = Vec::new();
    let mut i: usize = 0;
    while i < n
        invariant
            i <= n,
            b.wf(),
            1 <= nch == b.nb_channels,
            n == b.length,
            out@.len() == i,
            forall|j: int| 0 <= j < i ==> #[trigger] out@[j] as int == mono_val(*b, j),
            channel_ok(out@),
        decreases n - i,
    {
        let mut acc: i128 = 0;
        let mut c: usize = 0;
        while c < nch
            invariant
                c <= nch,
                b.wf(),
                nch == b.nb_channels,
                i < b.length,
                acc as int == col_sum(*b, c as int, i as int),
                abs_i(acc as int) <= c * (SAMPLE_MAX as int),
            decreases nch - c,
        {
            proof {
                assert((c + 1) * (SAMPLE_MAX as int) == c * (SAMPLE_MAX as int) + (
                SAMPLE_MAX as int)) by (nonlinear_arith);
            }
            let ch = &b.samples[c];
            acc = acc + ch[i] as i128;
            c += 1;
        }
        proof {
            lemma_col_sum_bound(*b, nch as int, i as int);
            crate::fixed::lemma_mul_bound(
                nch as int,
                SAMPLE_MAX as int,
                nch as int,
                SAMPLE_MAX as int,
            );
            lemma_tdiv_div_bound(acc as int, nch as int, SAMPLE_MAX as int);
        }
        let m = div_trunc(acc, nch as i128);
        out.push(m as i64);
        i += 1;
    }
    out
}

} // verus!
