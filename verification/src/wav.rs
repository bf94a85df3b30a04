//! Decoding of PCM WAV bytes.
//!
//! The decoder accepts the canonical 44-byte-header layout carrying
//! 16-bit little-endian PCM: anything else — a foreign container, a
//! compressed codec, a truncated header — is a decode error.  Each
//! 16-bit sample scales to the fixed-point representation so that the
//! largest positive step maps just below full scale.  Callers read
//! the file; this module turns its bytes into a buffer.

use vstd::prelude::*;

use crate::buffer::PcmBuffer;
use crate::fixed::MAX_RATE;
use crate::fixed::SCALE;
use crate::fixed::channel_ok;
use crate::fixed::div_trunc;
use crate::fixed::lemma_tdiv_div_bound;
use crate::fixed::sample_ok;
use crate::fixed::tdiv;
use crate::split::StemError;

verus! {

/// Unsigned 16-bit little-endian value at `off`.
pub open spec fn u16_at(s: Seq<u8>, off: int) -> int {
    s[off] + 256 * s[off + 1]
}

/// Unsigned 32-bit little-endian value at `off`.
pub open spec fn u32_at(s: Seq<u8>, off: int) -> int {
    u16_at(s, off) + 65536 * u16_at(s, off + 2)
}

/// Signed 16-bit little-endian value at `off`.
pub open spec fn i16_at(s: Seq<u8>, off: int) -> int {
    let r = u16_at(s, off);
    if r >= 32768 {
        r - 65536
    } else {
        r
    }
}

/// Whether the bytes begin with a canonical PCM16 WAV header this
/// decoder accepts: the `RIFF`/`WAVE`/`fmt `/`data` tags in their
/// fixed places, PCM format, 16 bits per sample, at least one
/// channel, and a supported sample rate.
pub open spec fn wav_header_ok(s: Seq<u8>) -> bool {
    &&& s.len() >= 44
    &&& s[0] == 82u8 && s[1] == 73u8 && s[2] == 70u8 && s[3] == 70u8
    &&& s[8] == 87u8 && s[9] == 65u8 && s[10] == 86u8 && s[11] == 69u8
    &&& s[12] == 102u8 && s[13] == 109u8 && s[14] == 116u8 && s[15] == 32u8
    &&& s[36] == 100u8 && s[37] == 97u8 && s[38] == 116u8 && s[39] == 97u8
    &&& u16_at(s, 20) == 1
    &&& u16_at(s, 34) == 16
    &&& 1 <= u16_at(s, 22)
    &&& 1 <= u32_at(s, 24) <= MAX_RATE
}

/// Channel count a valid header declares.
pub open spec fn wav_channels(s: Seq<u8>) -> int {
    u16_at(s, 22)
}

/// Sample rate a valid header declares.
pub open spec fn wav_rate(s: Seq<u8>) -> int {
    u32_at(s, 24)
}

/// Number of whole frames the bytes after the header carry.
pub open spec fn wav_frames(s: Seq<u8>) -> int {
    (s.len() - 44) / (2 * wav_channels(s))
}

/// The decoded fixed-point sample of channel `c` at frame `f`:
/// the interleaved 16-bit value scaled by `SCALE / 32768`.
pub open spec fn wav_sample(s: Seq<u8>, c: int, f: int) -> int {
    tdiv(i16_at(s, 44 + 2 * (f * wav_channels(s) + c)) * (SCALE as int), 32768)
}

/// Decode canonical PCM16 WAV bytes into a buffer.
///
/// Fails with a decode error exactly when the header is not the
/// accepted layout; on success the buffer carries the declared rate
/// and channel count, one fixed-point sample per interleaved 16-bit
/// value, and any trailing partial frame is dropped.
pub fn decode_wav(bytes: &Vec<u8>) -> (r: Result<PcmBuffer, StemError>)
    ensures
        r is Ok <==> wav_header_ok(bytes@),
        r is Err ==> r == Err::<PcmBuffer, StemError>(StemError::Decode),
        r matches Ok(b) ==> {
            &&& b.wf()
            &&& b.sample_rate == wav_rate(bytes@)
            &&& b.nb_channels == wav_channels(bytes@)
            &&& b.length == wav_frames(bytes@)
            &&& forall|c: int, f: int|
                0 <= c < b.nb_channels && 0 <= f < b.length ==> b.at(c, f) == wav_sample(
                    bytes@,
                    c,
                    f,
                )
        },
{
    let n = bytes.len();
    if n < 44 {
        return Err(StemError::Decode);
    }
    if bytes[0] != 82 || bytes[1] != 73 || bytes[2] != 70 || bytes[3] != 70 || bytes[8] != 87
        || bytes[9] != 65 || bytes[10] != 86 || bytes[11] != 69 || bytes[12] != 102
        || bytes[13] != 109 || bytes[14] != 116 || bytes[15] != 32 || bytes[36] != 100
        || bytes[37] != 97 || bytes[38] != 116 || bytes[39] != 97 {
        return Err(StemError::Decode);
    }
    let format: usize = bytes[20] as usize + 256 * (bytes[21] as usize);
    let bits: usize = bytes[34] as usize + 256 * (bytes[35] as usize);
    let nch: usize = bytes[22] as usize + 256 * (bytes[23] as usize);
    let rate: usize = bytes[24] as usize + 256 * (bytes[25] as usize) + 65536 * (bytes[26] as usize)
        + 16777216 * (bytes[27] as usize);
    proof {
        assert(rate as int == u32_at(bytes@, 24));
    }
    if format != 1 || bits != 16 || nch < 1 || rate < 1 || rate > MAX_RATE {
        return Err(StemError::Decode);
    }
    let frames: usize = (n - 44) / (2 * nch);
    proof {
        vstd::arithmetic::div_mod::lemma_div_pos_is_pos((n - 44) as int, 2 * nch as int);
        // every interleaved index of a whole frame lies inside the data
        vstd::arithmetic::div_mod::lemma_fundamental_div_mod((n - 44) as int, 2 * nch as int);
        vstd::arithmetic::div_mod::lemma_mod_division_less_than_divisor(
            (n - 44) as int,
            2 * nch as int,
        );
    }
    let mut samples: Vec<Vec<i64>> = Vec::new();
    let mut c: usize = 0;
    while c < nch
        invariant
            c <= nch,
            1 <= nch,
            n == bytes@.len(),
            44 <= n,
            nch as int == wav_channels(bytes@),
            frames as int == wav_frames(bytes@),
            (2 * nch as int) * (frames as int) <= n - 44,
            samples@.len() == c,
            forall|d: int| 0 <= d < c ==> (#[trigger] samples@[d])@.len() == frames,
            forall|d: int, f: int|
                0 <= d < c && 0 <= f < frames ==> (#[trigger] samples@[d]@[f]) as int == wav_sample(
                    bytes@,
                    d,
                    f,
                ),
            forall|d: int| 0 <= d < c ==> channel_ok((#[trigger] samples@[d])@),
        decreases nch - c,
    {
        let mut row: Vec<i64> = Vec::new();
        let mut f: usize = 0;
        while f < frames
            invariant
                f <= frames,
                c < nch,
                n == bytes@.len(),
                44 <= n,
                nch as int == wav_channels(bytes@),
                (2 * nch as int) * (frames as int) <= n - 44,
                row@.len() == f,
                forall|g: int|
                    0 <= g < f ==> (#[trigger] row@[g]) as int == wav_sample(bytes@, c as int, g),
                channel_ok(row@),
            decreases frames - f,
        {
            proof {
                assert((f as int) * (nch as int) + c < (frames as int) * (nch as int))
                    by (nonlinear_arith)
                    requires
                        f < frames,
                        c < nch,
                ;
                assert(2 * ((frames as int) * (nch as int)) == (2 * nch as int) * (frames as int))
                    by (nonlinear_arith);
            }
            let off: usize = 44 + 2 * (f * nch + c);
            let lo = bytes[off];
            let hi = bytes[off + 1];
            let raw: i64 = lo as i64 + 256 * (hi as i64);
            let value: i64 = if raw >= 32768 {
                raw - 65536
            } else {
                raw
            };
            proof {
                assert(value as int == i16_at(bytes@, off as int));
                lemma_tdiv_div_bound(
                    (value as int) * (SCALE as int),
                    32768,
                    crate::fixed::SAMPLE_MAX as int,
                );
                assert((value as int) * (SCALE as int) <= 32768 * (
                crate::fixed::SAMPLE_MAX as int)) by (nonlinear_arith)
                    requires
                        -32768 <= value && value < 32768,
                ;
                assert(-(32768 * (crate::fixed::SAMPLE_MAX as int)) <= (value as int) * (
                SCALE as int)) by (nonlinear_arith)
                    requires
                        -32768 <= value && value < 32768,
                ;
            }
            let scaled: i128 = div_trunc((value as i128) * (SCALE as i128), 32768);
            row.push(scaled as i64);
            f += 1;
        }
        samples.push(row);
        c += 1;
    }
    Ok(PcmBuffer { samples, sample_rate: rate, nb_channels: nch, length: frames })
}

} // verus!
