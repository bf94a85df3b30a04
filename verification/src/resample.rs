//! Rate conversion by linear interpolation.
//!
//! Resampling to the rate the buffer already has is the identity.
//! Otherwise the output holds one frame per target-rate tick over the
//! same duration — `round(length * target / source)` frames — and
//! each output frame interpolates linearly between the two source
//! frames around its position, rounding toward zero.

use vstd::prelude::*;

use crate::buffer::PcmBuffer;
use crate::fixed::MAX_RATE;
use crate::fixed::channel_ok;
use crate::fixed::div_trunc;
use crate::fixed::lemma_tdiv_frac_mag;
use crate::fixed::sample_ok;
use crate::fixed::tdiv;
use crate::split::StemError;

verus! {

/// The frame count after resampling `n` frames from rate `src` to
/// rate `tgt`: the resampled duration, rounded to the nearest frame.
pub open spec fn resampled_len(n: int, src: int, tgt: int) -> int {
    (n * tgt + src / 2) / src
}

/// One resampled frame: the source signal evaluated at position
/// `j * src / tgt`, linearly interpolating between the frames on
/// either side (the last frame extends to the right edge).
pub open spec fn rs_val(x: Seq<i64>, src: int, tgt: int, j: int) -> int {
    let n = x.len() as int;
    let pos = j * src;
    let idx0 = if pos / tgt < n - 1 {
        pos / tgt
    } else {
        n - 1
    };
    let idx1 = if idx0 + 1 < n {
        idx0 + 1
    } else {
        n - 1
    };
    let frac = pos % tgt;
    x[idx0] + tdiv((x[idx1] - x[idx0]) * frac, tgt)
}

/// A whole resampled channel.
pub open spec fn rs_channel(x: Seq<i64>, src: int, tgt: int) -> Seq<i64> {
    Seq::new(resampled_len(x.len() as int, src, tgt) as nat, |j: int| rs_val(x, src, tgt, j) as i64)
}

/// Resample one channel from rate `src` to rate `tgt`.
fn resample_channel(x: &Vec<i64>, src: usize, tgt: usize) -> (out: Vec<i64>)
    requires
        channel_ok(x@),
        1 <= src <= MAX_RATE,
        1 <= tgt <= MAX_RATE,
        resampled_len(x@.len() as int, src as int, tgt as int) <= usize::MAX,
    ensures
        out@ == rs_channel(x@, src as int, tgt as int),
        out@.len() == resampled_len(x@.len() as int, src as int, tgt as int),
        channel_ok(out@),
{
    let n = x.len();
    proof {
        crate::fixed::lemma_mul_bound(n as int, tgt as int, 0xffff_ffff_ffff_ffff, 1_000_000);
        assert(0xffff_ffff_ffff_ffff * 1_000_000 + 1_000_000 < u128::MAX as int)
            by (nonlinear_arith);
        vstd::arithmetic::div_mod::lemma_div_pos_is_pos(
            (n as int) * (tgt as int) + (src as int) / 2,
            src as int,
        );
    }
    let out_len_w: u128 = ((n as u128) * (tgt as u128) + (src as u128) / 2) / (src as u128);
    let out_len: usize = out_len_w as usize;
    let mut out: Vec<i64> = Vec::new();
    let mut j: usize = 0;
    while j < out_len
        invariant
            j <= out_len,
            n == x@.len(),
            channel_ok(x@),
            1 <= src <= MAX_RATE,
            1 <= tgt <= MAX_RATE,
            out_len as int == resampled_len(n as int, src as int, tgt as int),
            out@.len() == j,
            forall|t: int|
                0 <= t < j ==> (#[trigger] out@[t]) as int == rs_val(
                    x@,
                    src as int,
                    tgt as int,
                    t,
                ),
            channel_ok(out@),
        decreases out_len - j,
    {
        // an output frame exists only when the source has frames
        proof {
            if n == 0 {
                assert((src as int) / 2 < src as int);
                assert(0 * (tgt as int) == 0) by (nonlinear_arith);
                assert(resampled_len(0, src as int, tgt as int) == 0) by {
                    vstd::arithmetic::div_mod::lemma_basic_div((src as int) / 2, src as int);
                    assert(0 * (tgt as int) == 0) by (nonlinear_arith);
                };
            }
            crate::fixed::lemma_mul_bound(j as int, src as int, 0xffff_ffff_ffff_ffff, 1_000_000);
            assert(0xffff_ffff_ffff_ffff * 1_000_000 < u128::MAX as int) by (nonlinear_arith);
        }
        let pos: u128 = (j as u128) * (src as u128);
        let m: u128 = pos / (tgt as u128);
        let idx0: usize = if m < (n - 1) as u128 {
            m as usize
        } else {
            n - 1
        };
        let idx1: usize = if idx0 + 1 < n {
            idx0 + 1
        } else {
            n - 1
        };
        let frac: i128 = (pos % (tgt as u128)) as i128;
        let a = x[idx0];
        let b = x[idx1];
        let diff: i128 = b as i128 - a as i128;
        proof {
            vstd::arithmetic::div_mod::lemma_mod_division_less_than_divisor(pos as int, tgt as int);
            assert(sample_ok(x@[idx0 as int]));
            assert(sample_ok(x@[idx1 as int]));
            crate::fixed::lemma_mul_bound(
                diff as int,
                frac as int,
                2 * (crate::fixed::SAMPLE_MAX as int),
                1_000_000,
            );
            assert(2 * (crate::fixed::SAMPLE_MAX as int) * 1_000_000 < i128::MAX as int)
                by (nonlinear_arith);
            lemma_tdiv_frac_mag(diff as int, frac as int, tgt as int);
        }
        let q: i128 = div_trunc(diff * frac, tgt as i128);
        let v: i64 = (a as i128 + q) as i64;
        out.push(v);
        j += 1;
    }
    assert(out@ =~= rs_channel(x@, src as int, tgt as int));
    out
}

/// Resample a buffer to `target_rate`.
///
/// Fails — with a resample error and nothing else changed — exactly
/// when the target rate is zero or beyond the supported range.  A
/// buffer already at the target rate is returned unchanged; otherwise
/// every channel is linearly interpolated onto the new frame grid,
/// whose length is the resampled duration rounded to the nearest
/// frame.
pub fn resample(buffer: PcmBuffer, target_rate: usize) -> (r: Result<PcmBuffer, StemError>)
    requires
        buffer.wf(),
        resampled_len(buffer.length as int, buffer.sample_rate as int, target_rate as int)
            <= usize::MAX,
    ensures
        r is Ok <==> 1 <= target_rate <= MAX_RATE,
        r is Err ==> r == Err::<PcmBuffer, StemError>(StemError::Resample),
        r matches Ok(out) ==> {
            &&& out.wf()
            &&& out.sample_rate == target_rate
            &&& out.nb_channels == buffer.nb_channels
            &&& (buffer.sample_rate == target_rate ==> out == buffer)
            &&& (buffer.sample_rate != target_rate ==> {
                &&& out.length == resampled_len(
                    buffer.length as int,
                    buffer.sample_rate as int,
                    target_rate as int,
                )
                &&& forall|c: int|
                    0 <= c < buffer.nb_channels ==> (#[trigger] out.samples@[c])@ == rs_channel(
                        buffer.samples@[c]@,
                        buffer.sample_rate as int,
                        target_rate as int,
                    )
            })
        },
{
    if target_rate < 1 || target_rate > MAX_RATE {
        return Err(StemError::Resample);
    }
    if buffer.sample_rate == target_rate {
        return Ok(buffer);
    }
    let src = buffer.sample_rate;
    let n = buffer.length;
    let nch = buffer.nb_channels;
    let mut channels: Vec<Vec<i64>> = Vec::new();
    let mut c: usize = 0;
    let ghost new_len: int = resampled_len(n as int, src as int, target_rate as int);
    while c < nch
        invariant
            c <= nch,
            buffer.wf(),
            nch == buffer.nb_channels,
            n == buffer.length,
            src == buffer.sample_rate,
            1 <= target_rate <= MAX_RATE,
            new_len == resampled_len(n as int, src as int, target_rate as int),
            new_len <= usize::MAX,
            channels@.len() == c,
            forall|d: int|
                0 <= d < c ==> (#[trigger] channels@[d])@ == rs_channel(
                    buffer.samples@[d]@,
                    src as int,
                    target_rate as int,
                ),
            forall|d: int| 0 <= d < c ==> (#[trigger] channels@[d])@.len() == new_len,
            forall|d: int| 0 <= d < c ==> channel_ok((#[trigger] channels@[d])@),
        decreases nch - c,
    {
        let ch = resample_channel(&buffer.samples[c], src, target_rate);
        channels.push(ch);
        c += 1;
    }
    let out_len: usize = if nch == 0 {
        proof {
            crate::fixed::lemma_mul_bound(n as int, target_rate as int, 0xffff_ffff_ffff_ffff, 1_000_000);
            assert(0xffff_ffff_ffff_ffff * 1_000_000 + 1_000_000 < u128::MAX as int)
                by (nonlinear_arith);
            vstd::arithmetic::div_mod::lemma_div_pos_is_pos(
                (n as int) * (target_rate as int) + (src as int) / 2,
                src as int,
            );
        }
        let w: u128 = ((n as u128) * (target_rate as u128) + (src as u128) / 2) / (src as u128);
        w as usize
    } else {
        channels[0].len()
    };
    Ok(
        PcmBuffer {
            samples: channels,
            sample_rate: target_rate,
            nb_channels: nch,
            length: out_len,
        },
    )
}

} // verus!
