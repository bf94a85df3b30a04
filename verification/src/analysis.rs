//! Tempo and key estimation.
//!
//! The tempo estimator works on the mono mixdown of a decoded track:
//! it takes the magnitude envelope, smooths it with a sliding mean
//! whose window is the sample rate scaled to 100 ms (clamped to a
//! quarter of the track), picks peaks that rise above three tenths of
//! the global smoothed maximum and strictly dominate a margin around
//! them, and converts the mean peak gap into beats per minute.  Tempo
//! is reported in thousandths of a beat per minute, clamped to
//! `[60, 200]` BPM; short or silent input falls back to `120` BPM
//! rather than erroring.
//!
//! The key estimator is a deterministic placeholder, kept exactly for
//! compatibility with persisted labels: it selects one of seven fixed
//! major-key names by the sample count modulo seven.  Real
//! chroma/key-profile analysis would replace it.

use vstd::prelude::*;

use crate::buffer::PcmBuffer;
use crate::buffer::downmix_mono;
use crate::fixed::MAX_RATE;
use crate::fixed::SAMPLE_MAX;
use crate::fixed::abs_sample;
use crate::fixed::abs_sum;
use crate::fixed::channel_ok;
use crate::fixed::clamp_i;
use crate::fixed::lemma_abs_sum_extend;
use crate::fixed::lemma_mul_bound;
use crate::fixed::lemma_tdiv_div_bound;

verus! {

/// Tempo values are reported in thousandths of a beat per minute.
pub const BPM_SCALE: i64 = 1000;

/// Fallback tempo on insufficient signal: 120 BPM.
pub const BPM_FALLBACK: i64 = 120_000;

/// Lower clamp of a reported tempo: 60 BPM.
pub const BPM_MIN: i64 = 60_000;

/// Upper clamp of a reported tempo: 200 BPM.
pub const BPM_MAX: i64 = 200_000;

/// Smoothing window: the sample rate scaled to 100 ms, rounded, then
/// clamped into `[1, len/4]`.
pub open spec fn bpm_window(sr: int, len: int) -> int {
    let r = (sr + 5) / 10;
    let m = if r > len / 4 {
        len / 4
    } else {
        r
    };
    if m < 1 {
        1
    } else {
        m
    }
}

/// Smoothed envelope value at index `i`: the mean magnitude of the
/// `w` samples starting at `i`.
pub open spec fn s_val(x: Seq<i64>, w: int, i: int) -> int {
    abs_sum(x, i, i + w) / w
}

/// The smoothed envelope as a sequence of `len - w + 1` values.
pub open spec fn smoothed_seq(x: Seq<i64>, w: int) -> Seq<i64> {
    Seq::new((x.len() - w + 1) as nat, |i: int| s_val(x, w, i) as i64)
}

/// Maximum of the first `n` values of a signal, at least zero.
pub open spec fn sig_max(s: Seq<i64>, n: int) -> int
    decreases n,
{
    if n <= 0 {
        0
    } else {
        let m = sig_max(s, n - 1);
        if s[n - 1] as int > m {
            s[n - 1] as int
        } else {
            m
        }
    }
}

/// Peak margin: `w/4` raised to at least one, capped at a quarter of
/// the smoothed signal.
pub open spec fn peak_margin(wq: int, ns: int) -> int {
    let m = if wq < 1 {
        1
    } else {
        wq
    };
    if m > ns / 4 {
        ns / 4
    } else {
        m
    }
}

/// Whether index `i` of signal `s` is a peak for margin `m`: an
/// interior index whose value exceeds three tenths of the global
/// maximum and strictly exceeds every value within `m` on both sides.
pub open spec fn is_peak(s: Seq<i64>, m: int, i: int) -> bool {
    &&& m <= i < s.len() - m
    &&& 10 * (s[i] as int) > 3 * sig_max(s, s.len() as int)
    &&& forall|j: int| i - m <= j < i ==> (#[trigger] s[j]) < s[i]
    &&& forall|j: int| i < j <= i + m ==> (#[trigger] s[j]) < s[i]
}

/// The peak indices below `k`, in increasing order.
pub open spec fn peaks_upto(s: Seq<i64>, m: int, k: int) -> Seq<int>
    decreases k,
{
    if k <= 0 {
        Seq::empty()
    } else if is_peak(s, m, k - 1) {
        peaks_upto(s, m, k - 1).push(k - 1)
    } else {
        peaks_upto(s, m, k - 1)
    }
}

/// All peak indices of the signal, in increasing order.
pub open spec fn peak_indices(s: Seq<i64>, m: int) -> Seq<int> {
    peaks_upto(s, m, s.len() as int)
}

/// Peak indices are strictly increasing and below `k`.
pub proof fn lemma_peaks_increasing(s: Seq<i64>, m: int, k: int)
    ensures
        forall|a: int|
            0 <= a < peaks_upto(s, m, k).len() ==> 0 <= #[trigger] peaks_upto(s, m, k)[a] < k,
        forall|a: int, b: int|
            0 <= a < b < peaks_upto(s, m, k).len() ==> peaks_upto(s, m, k)[a] < peaks_upto(
                s,
                m,
                k,
            )[b],
    decreases k,
{
    if k > 0 {
        lemma_peaks_increasing(s, m, k - 1);
        let p0 = peaks_upto(s, m, k - 1);
        let p = peaks_upto(s, m, k);
        assert forall|a: int| 0 <= a < p.len() implies 0 <= #[trigger] p[a] < k by {
            if a < p0.len() {
                assert(p[a] == p0[a]);
            } else {
                assert(p[a] == k - 1);
            }
        }
        assert forall|a: int, b: int| 0 <= a < b < p.len() implies #[trigger] p[a] < #[trigger] p[b] by {
            if b < p0.len() {
                assert(p[a] == p0[a] && p[b] == p0[b]);
            } else if a < p0.len() {
                assert(p[a] == p0[a] && 0 <= p0[a] < k - 1);
            }
        }
    }
}

/// The estimated tempo, in thousandths of a beat per minute, of a mono
/// signal `x` at sample rate `sr`.
///
/// With smoothing window `w`: short input (fewer than `2*w` samples)
/// falls back to 120 BPM, as does a signal with fewer than two peaks.
/// Otherwise the mean gap between consecutive peaks — the peak span
/// divided by the gap count — is converted back to input samples
/// (times `w`) and into beats per minute, clamped to `[60, 200]` BPM.
pub open spec fn bpm_spec(x: Seq<i64>, sr: int) -> int {
    let len = x.len() as int;
    let w = bpm_window(sr, len);
    if len < 2 * w {
        BPM_FALLBACK as int
    } else {
        let s = smoothed_seq(x, w);
        let m = peak_margin(w / 4, s.len() as int);
        let p = peak_indices(s, m);
        if p.len() < 2 {
            BPM_FALLBACK as int
        } else {
            let span = p[p.len() - 1] - p[0];
            clamp_i(
                (sr * 60 * (BPM_SCALE as int) * (p.len() - 1)) / (span * w),
                BPM_MIN as int,
                BPM_MAX as int,
            )
        }
    }
}

/// Find the peak indices of a smoothed signal, with the given raw
/// margin (clamped as [`peak_margin`] describes).
pub fn find_peaks(signal: &Vec<i64>, window_size: usize) -> (peaks: Vec<usize>)
    requires
        channel_ok(signal@),
    ensures
        ({
            let p = peak_indices(signal@, peak_margin(window_size as int, signal@.len() as int));
            &&& peaks@.len() == p.len()
            &&& forall|k: int| 0 <= k < p.len() ==> (#[trigger] peaks@[k]) as int == p[k]
        }),
{
    let ns = signal.len();
    let mut m = if window_size < 1 {
        1
    } else {
        window_size
    };
    if m > ns / 4 {
        m = ns / 4;
    }
    let ghost m_g: int = m as int;
    assert(m_g == peak_margin(window_size as int, ns as int));

    // global maximum of the signal, at least zero
    let mut mx: i64 = 0;
    let mut i: usize = 0;
    while i < ns
        invariant
            i <= ns,
            ns == signal@.len(),
            channel_ok(signal@),
            mx as int == sig_max(signal@, i as int),
            0 <= mx <= SAMPLE_MAX,
        decreases ns - i,
    {
        if signal[i] > mx {
            mx = signal[i];
        }
        i += 1;
    }

    let mut peaks: Vec<usize> = Vec::new();
    i = 0;
    while i < ns
        invariant
            i <= ns,
            ns == signal@.len(),
            channel_ok(signal@),
            m_g == peak_margin(window_size as int, ns as int),
            m == m_g,
            mx as int == sig_max(signal@, ns as int),
            peaks@.len() == peaks_upto(signal@, m_g, i as int).len(),
            forall|k: int|
                0 <= k < peaks@.len() ==> (#[trigger] peaks@[k]) as int == peaks_upto(
                    signal@,
                    m_g,
                    i as int,
                )[k],
        decreases ns - i,
    {
        if i >= m && i < ns - m && 10 * (signal[i] as i128) > 3 * (mx as i128) {
            let cur = signal[i];
            let mut before_ok = true;
            let mut j: usize = i - m;
            while j < i
                invariant
                    i - m <= j <= i,
                    i < ns == signal@.len(),
                    before_ok == (forall|t: int|
                        i - m <= t < j ==> (#[trigger] signal@[t]) < cur),
                    cur == signal@[i as int],
                    m <= i,
                decreases i - j,
            {
                if signal[j] >= cur {
                    before_ok = false;
                }
                j += 1;
            }
            let mut after_ok = true;
            j = i + 1;
            while j <= i + m
                invariant
                    i + 1 <= j <= i + m + 1,
                    i + m < ns == signal@.len(),
                    after_ok == (forall|t: int|
                        i < t < j ==> (#[trigger] signal@[t]) < cur),
                    cur == signal@[i as int],
                decreases i + m + 1 - j,
            {
                if signal[j] >= cur {
                    after_ok = false;
                }
                j += 1;
            }
            if before_ok && after_ok {
                assert(is_peak(signal@, m_g, i as int));
                peaks.push(i);
            } else {
                assert(!is_peak(signal@, m_g, i as int));
            }
        } else {
            assert(!is_peak(signal@, m_g, i as int));
        }
        i += 1;
    }
    peaks
}

/// Estimate the tempo of a mono signal, in thousandths of a beat per
/// minute.  Always returns a value in `[60, 200]` BPM; too little
/// signal yields exactly the 120 BPM fallback.
pub fn estimate_bpm_from_envelope(samples: &Vec<i64>, sample_rate: usize) -> (bpm: i64)
    requires
        channel_ok(samples@),
        1 <= sample_rate <= MAX_RATE,
    ensures
        bpm as int == bpm_spec(samples@, sample_rate as int),
        BPM_MIN <= bpm <= BPM_MAX,
        samples@.len() < 2 * bpm_window(sample_rate as int, samples@.len() as int) ==> bpm
            == BPM_FALLBACK,
{
    let n = samples.len();
    let r = (sample_rate + 5) / 10;
    let mut w = r;
    if w > n / 4 {
        w = n / 4;
    }
    if w < 1 {
        w = 1;
    }
    let ghost w_g: int = w as int;
    assert(w_g == bpm_window(sample_rate as int, n as int));
    if n < 2 * w {
        return BPM_FALLBACK;
    }

    // sliding mean of the magnitude envelope
    let ns = n - w + 1;
    let mut smoothed: Vec<i64> = Vec::new();
    let mut i: usize = 0;
    while i < ns
        invariant
            i <= ns,
            ns == n - w + 1,
            1 <= w,
            2 * w <= n,
            n == samples@.len(),
            w_g == w as int,
            channel_ok(samples@),
            smoothed@.len() == i,
            forall|j: int| 0 <= j < i ==> (#[trigger] smoothed@[j]) as int == s_val(samples@, w_g, j),
            channel_ok(smoothed@),
        decreases ns - i,
    {
        let mut acc: i128 = 0;
        let mut k: usize = 0;
        while k < w
            invariant
                k <= w,
                i + w <= n,
                n == samples@.len(),
                channel_ok(samples@),
                acc as int == abs_sum(samples@, i as int, i + k),
                w_g == w as int,
                0 <= acc,
                acc as int <= k * (SAMPLE_MAX as int),
            decreases w - k,
        {
            proof {
                lemma_abs_sum_extend(samples@, i as int, i + k);
                assert((k + 1) * (SAMPLE_MAX as int) == k * (SAMPLE_MAX as int) + (
                SAMPLE_MAX as int)) by (nonlinear_arith);
            }
            acc = acc + abs_sample(samples[i + k]) as i128;
            k += 1;
        }
        proof {
            lemma_tdiv_div_bound(acc as int, w_g, SAMPLE_MAX as int);
        }
        let v: i128 = acc / (w as i128);
        smoothed.push(v as i64);
        i += 1;
    }
    assert(smoothed@ =~= smoothed_seq(samples@, w_g));

    let peaks = find_peaks(&smoothed, w / 4);
    let ghost m_g: int = peak_margin(w_g / 4, smoothed@.len() as int);
    let ghost p = peak_indices(smoothed@, m_g);
    if peaks.len() < 2 {
        return BPM_FALLBACK;
    }
    proof {
        lemma_peaks_increasing(smoothed@, m_g, smoothed@.len() as int);
    }
    let first = peaks[0];
    let last = peaks[peaks.len() - 1];
    let count = peaks.len() - 1;
    assert(first < last);
    let span: u128 = (last - first) as u128;
    let sr60: u128 = (sample_rate as u128) * 60_000u128;
    proof {
        assert(usize::MAX as int <= u64::MAX as int);
        assert((sample_rate as int) * 60_000 <= 60_000_000_000) by (nonlinear_arith)
            requires
                sample_rate <= 1_000_000,
        ;
        lemma_mul_bound(sr60 as int, count as int, 60_000_000_000, u64::MAX as int);
        lemma_mul_bound(span as int, w_g, u64::MAX as int, u64::MAX as int);
        assert(60_000_000_000 * (u64::MAX as int) < u128::MAX as int) by (nonlinear_arith);
        assert((u64::MAX as int) * (u64::MAX as int) < u128::MAX as int) by (nonlinear_arith);
        assert((span as int) * w_g >= 1) by (nonlinear_arith)
            requires
                span as int >= 1,
                w_g >= 1,
        ;
    }
    let num: u128 = sr60 * (count as u128);
    let den: u128 = span * (w as u128);
    let q: u128 = num / den;
    let bpm: i64 = if q < 60_000u128 {
        BPM_MIN
    } else if q > 200_000u128 {
        BPM_MAX
    } else {
        q as i64
    };
    bpm
}

/// Estimate the tempo of a decoded track: downmix to mono, then run
/// the envelope estimator.  The result is in thousandths of a beat
/// per minute, always within `[60, 200]` BPM.
pub fn detect_bpm(track: &PcmBuffer) -> (bpm: i64)
    requires
        track.wf(),
        track.nb_channels >= 1,
    ensures
        bpm as int == bpm_spec(crate::buffer::mono_channel(*track), track.sample_rate as int),
        BPM_MIN <= bpm <= BPM_MAX,
        track.length < 2 * bpm_window(track.sample_rate as int, track.length as int) ==> bpm
            == BPM_FALLBACK,
{
    let mono = downmix_mono(track);
    assert(mono@ =~= crate::buffer::mono_channel(*track));
    estimate_bpm_from_envelope(&mono, track.sample_rate)
}

/// The seven key labels the placeholder estimator can report,
/// selected by sample count modulo seven.
pub open spec fn key_label(n: int) -> Seq<char> {
    if n % 7 == 0 {
        "C major"@
    } else if n % 7 == 1 {
        "D major"@
    } else if n % 7 == 2 {
        "E major"@
    } else if n % 7 == 3 {
        "F major"@
    } else if n % 7 == 4 {
        "G major"@
    } else if n % 7 == 5 {
        "A major"@
    } else {
        "B major"@
    }
}

/// Whether a string is one of the seven reportable key labels.
pub open spec fn is_key_label(s: Seq<char>) -> bool {
    ||| s == "C major"@
    ||| s == "D major"@
    ||| s == "E major"@
    ||| s == "F major"@
    ||| s == "G major"@
    ||| s == "A major"@
    ||| s == "B major"@
}

/// Deterministic placeholder key estimator over a mono signal.
///
/// Not pitch-class analysis: an empty signal reports `"C major"`, and
/// any other selects one of the seven fixed labels by its sample
/// count modulo seven.  Kept exactly for compatibility, since persisted
/// labels depend on this vocabulary.  The sample rate is unused by
/// the placeholder; a chroma analysis would need it.
pub fn estimate_key_from_chroma(samples: &Vec<i64>, _sample_rate: usize) -> (key: String)
    ensures
        key@ == key_label(samples@.len() as int),
        is_key_label(key@),
        samples@.len() == 0 ==> key@ == "C major"@,
{
    let idx = samples.len() % 7;
    let name: &str = if idx == 0 {
        "C major"
    } else if idx == 1 {
        "D major"
    } else if idx == 2 {
        "E major"
    } else if idx == 3 {
        "F major"
    } else if idx == 4 {
        "G major"
    } else if idx == 5 {
        "A major"
    } else {
        "B major"
    };
    name.to_owned()
}

/// Estimate the key of a decoded track: downmix to mono, then run the
/// placeholder estimator on the mono signal.
pub fn detect_key(track: &PcmBuffer) -> (key: String)
    requires
        track.wf(),
        track.nb_channels >= 1,
    ensures
        key@ == key_label(track.length as int),
        is_key_label(key@),
        track.length == 0 ==> key@ == "C major"@,
{
    let mono = downmix_mono(track);
    estimate_key_from_chroma(&mono, track.sample_rate)
}

} // verus!
