//! The separation pipeline around model inference.
//!
//! Inference itself is an outside capability: the caller normalizes a
//! track (see [`crate::normalize`]), hands the normalized channels to
//! the model, and returns here with one raw channel matrix per
//! source.  This module validates the shape of what came back — any
//! mismatch is an inference error, and no partial output is ever
//! produced — then denormalizes, applies the per-source filter
//! policy, repairs clicks, and names the output files: `<source>.wav`
//! for a full split, `vocal.wav` and `instrumental.wav` for the
//! two-way split, where the instrumental is the sum of all non-vocal
//! sources.

use vstd::prelude::*;

use crate::buffer::PcmBuffer;
use crate::fixed::SAMPLE_MAX;
use crate::fixed::abs_i;
use crate::fixed::channel_ok;
use crate::fixed::clamp_sample;
use crate::fixed::clamp_sample_i;
use crate::loader::SeparationConfig;
use crate::normalize::NormParams;
use crate::normalize::denorm_sample_spec;
use crate::normalize::denormalize_channels;
use crate::repair::clicks_repaired;
use crate::stems::SourceKind;
use crate::stems::post_process_stem;
use crate::stems::remove_clicks_pops;
use crate::stems::shaped_channel;
use crate::stems::source_kind_of;

verus! {

/// The error taxonomy of the pipeline.
#[derive(Clone, Copy, Debug, PartialEq, Eq, Structural)]
pub enum StemError {
    /// Unreadable, unsupported or corrupt input.
    Decode,
    /// Invalid resampling target rate.
    Resample,
    /// Device failure, shape mismatch or model-load failure.
    Inference,
    /// Output write failure.
    Io,
    /// Missing or malformed model descriptor.
    Config,
}

/// One finished stem: its source name, output file name, and audio.
pub struct Stem {
    /// The separated source this stem holds.
    pub source: String,
    /// The file the caller should write it to.
    pub file_name: String,
    /// The processed audio.
    pub audio: PcmBuffer,
}

/// The response of a completed split request.
pub enum SplitStemsResponse {
    /// The split succeeded; one path per written stem.
    Success { stems: Vec<String> },
}

/// Whether a raw model output has the shape the configuration and
/// track length demand: one channel matrix per source, each with the
/// configured channel count, each channel `length` samples long.
pub open spec fn outputs_shape_ok(
    raw: Seq<Vec<Vec<i64>>>,
    config: SeparationConfig,
    length: int,
) -> bool {
    &&& raw.len() == config.sources@.len()
    &&& forall|s: int| 0 <= s < raw.len() ==> (#[trigger] raw[s])@.len() == config.channels
    &&& forall|s: int, c: int|
        0 <= s < raw.len() && 0 <= c < raw[s]@.len() ==> (#[trigger] raw[s]@[c])@.len() == length
}

/// One raw channel after denormalization.
pub open spec fn denorm_seq(s: Seq<i64>, p: NormParams) -> Seq<i64> {
    Seq::new(s.len(), |i: int| denorm_sample_spec(s[i] as int, p.mean as int, p.std_safe as int) as i64)
}

/// One finished stem channel: denormalized, shaped by the source's
/// policy, then click-repaired.
pub open spec fn stem_channel_spec(raw_ch: Seq<i64>, kind: SourceKind, p: NormParams, sr: int) -> Seq<
    i64,
> {
    clicks_repaired(shaped_channel(denorm_seq(raw_ch, p), kind, sr), sr)
}

/// Denormalize one source's raw channels into a well-formed buffer.
fn denorm_to_buffer(
    raw: &Vec<Vec<i64>>,
    p: &NormParams,
    config: &SeparationConfig,
    length: usize,
) -> (out: PcmBuffer)
    requires
        config.wf(),
        abs_i(p.mean as int) <= SAMPLE_MAX as int,
        1 <= p.std_safe <= 3 * SAMPLE_MAX,
        raw@.len() == config.channels,
        forall|c: int| 0 <= c < raw@.len() ==> (#[trigger] raw@[c])@.len() == length,
    ensures
        out.wf(),
        out.sample_rate == config.sample_rate,
        out.nb_channels == config.channels,
        out.length == length,
        forall|c: int|
            0 <= c < raw@.len() ==> (#[trigger] out.samples@[c])@ == denorm_seq(raw@[c]@, *p),
{
    let denormed = denormalize_channels(raw, p);
    let out = PcmBuffer {
        samples: denormed,
        sample_rate: config.sample_rate,
        nb_channels: config.channels,
        length,
    };
    proof {
        assert forall|c: int| 0 <= c < raw@.len() implies (#[trigger] out.samples@[c])@
            == denorm_seq(raw@[c]@, *p) by {
            assert(out.samples@[c]@ =~= denorm_seq(raw@[c]@, *p));
        }
    }
    out
}

/// Finish a full multi-stem split from the raw model output.
///
/// Fails with an inference error — and produces nothing — exactly
/// when the output shape does not match the configuration and track
/// length.  On success every source yields one stem, named
/// `<source>.wav`, whose channels are the denormalized model output
/// shaped by the source's policy and click-repaired.
pub fn finish_stems(
    config: &SeparationConfig,
    raw: &Vec<Vec<Vec<i64>>>,
    p: &NormParams,
    length: usize,
) -> (r: Result<Vec<Stem>, StemError>)
    requires
        config.wf(),
        abs_i(p.mean as int) <= SAMPLE_MAX as int,
        1 <= p.std_safe <= 3 * SAMPLE_MAX,
    ensures
        r is Ok <==> outputs_shape_ok(raw@, *config, length as int),
        r is Err ==> r == Err::<Vec<Stem>, StemError>(StemError::Inference),
        r matches Ok(stems) ==> {
            &&& stems@.len() == config.sources@.len()
            &&& forall|s: int|
                0 <= s < stems@.len() ==> (#[trigger] stems@[s]).source@ == config.sources@[s]@
            &&& forall|s: int|
                0 <= s < stems@.len() ==> (#[trigger] stems@[s]).file_name@ == config.sources@[s]@
                    + ".wav"@
            &&& forall|s: int|
                0 <= s < stems@.len() ==> (#[trigger] stems@[s]).audio.wf()
                    && stems@[s].audio.sample_rate == config.sample_rate
                    && stems@[s].audio.nb_channels == config.channels && stems@[s].audio.length
                    == length
            &&& forall|s: int, c: int|
                0 <= s < stems@.len() && 0 <= c < config.channels
                    ==> (#[trigger] stems@[s].audio.samples@[c])@ == stem_channel_spec(
                    raw@[s]@[c]@,
                    source_kind_of(config.sources@[s]@),
                    *p,
                    config.sample_rate as int,
                )
        },
{
    let nsrc = config.sources.len();
    if raw.len() != nsrc {
        return Err(StemError::Inference);
    }
    // validate the shape before touching anything
    let mut s: usize = 0;
    while s < nsrc
        invariant
            s <= nsrc,
            nsrc == config.sources@.len(),
            raw@.len() == nsrc,
            forall|t: int| 0 <= t < s ==> (#[trigger] raw@[t])@.len() == config.channels,
            forall|t: int, c: int|
                0 <= t < s && 0 <= c < raw@[t]@.len() ==> (#[trigger] raw@[t]@[c])@.len()
                    == length,
        decreases nsrc - s,
    {
        let m = &raw[s];
        if m.len() != config.channels {
            return Err(StemError::Inference);
        }
        let mut c: usize = 0;
        while c < config.channels
            invariant
                c <= config.channels,
                s < raw@.len(),
                m == &raw[s as int],
                m@.len() == config.channels,
                forall|d: int| 0 <= d < c ==> (#[trigger] m@[d])@.len() == length,
            decreases config.channels - c,
        {
            if m[c].len() != length {
                return Err(StemError::Inference);
            }
            c += 1;
        }
        s += 1;
    }
    // shape is good; build the stems
    let mut stems: Vec<Stem> = Vec::new();
    let mut s: usize = 0;
    while s < nsrc
        invariant
            s <= nsrc,
            config.wf(),
            abs_i(p.mean as int) <= SAMPLE_MAX as int,
            1 <= p.std_safe <= 3 * SAMPLE_MAX,
            nsrc == config.sources@.len(),
            outputs_shape_ok(raw@, *config, length as int),
            stems@.len() == s,
            forall|t: int| 0 <= t < s ==> (#[trigger] stems@[t]).source@ == config.sources@[t]@,
            forall|t: int|
                0 <= t < s ==> (#[trigger] stems@[t]).file_name@ == config.sources@[t]@ + ".wav"@,
            forall|t: int|
                0 <= t < s ==> (#[trigger] stems@[t]).audio.wf() && stems@[t].audio.sample_rate
                    == config.sample_rate && stems@[t].audio.nb_channels == config.channels
                    && stems@[t].audio.length == length,
            forall|t: int, c: int|
                0 <= t < s && 0 <= c < config.channels
                    ==> (#[trigger] stems@[t].audio.samples@[c])@ == stem_channel_spec(
                    raw@[t]@[c]@,
                    source_kind_of(config.sources@[t]@),
                    *p,
                    config.sample_rate as int,
                ),
        decreases nsrc - s,
    {
        let source = &config.sources[s];
        let buf = denorm_to_buffer(&raw[s], p, config, length);
        let shaped = post_process_stem(&buf, source.as_str());
        let repaired = remove_clicks_pops(&shaped);
        let stem = Stem {
            source: source.clone(),
            file_name: source.clone().concat(".wav"),
            audio: repaired,
        };
        stems.push(stem);
        s += 1;
    }
    Ok(stems)
}

/// Search for `"vocals"` among the source names, from index `k` on.
pub open spec fn vocal_search(sources: Seq<String>, k: int) -> Option<int>
    decreases sources.len() - k,
{
    if k >= sources.len() {
        None
    } else if sources[k]@ == "vocals"@ {
        Some(k)
    } else {
        vocal_search(sources, k + 1)
    }
}

/// The index of the vocal source: the first source named `"vocals"`,
/// or the first source at all when none carries that name.
pub open spec fn vocal_index_spec(sources: Seq<String>) -> int {
    match vocal_search(sources, 0) {
        Some(i) => i,
        None => 0,
    }
}

/// Find the index of the vocal source.
pub fn find_vocal_index(sources: &Vec<String>) -> (r: usize)
    requires
        sources@.len() >= 1,
    ensures
        r as int == vocal_index_spec(sources@),
        r < sources@.len(),
{
    let n = sources.len();
    let mut k: usize = 0;
    while k < n
        invariant
            k <= n,
            n == sources@.len(),
            vocal_search(sources@, 0) == vocal_search(sources@, k as int),
        decreases n - k,
    {
        if crate::stems::kind_of_source(sources[k].as_str()) == crate::stems::SourceKind::Vocals {
            proof {
                crate::stems::lemma_known_kinds();
                assert(sources@[k as int]@ == "vocals"@);
            }
            return k;
        }
        proof {
            crate::stems::lemma_known_kinds();
            assert(sources@[k as int]@ != "vocals"@);
            assert(vocal_search(sources@, k as int) == vocal_search(sources@, k + 1));
        }
        k += 1;
    }
    0
}

/// Sum, over the first `s` sources whose name is not `"vocals"`, of
/// the denormalized sample of channel `c` at frame `i`.  The skip
/// goes by name: when no source carries the name, nothing is
/// skipped, even though the vocal stem then falls back to the first
/// source.
pub open spec fn inst_sum(
    raw: Seq<Vec<Vec<i64>>>,
    sources: Seq<String>,
    p: NormParams,
    s: int,
    c: int,
    i: int,
) -> int
    decreases s,
{
    if s <= 0 {
        0
    } else {
        let rest = inst_sum(raw, sources, p, s - 1, c, i);
        if sources[s - 1]@ == "vocals"@ {
            rest
        } else {
            rest + denorm_sample_spec(raw[s - 1]@[c]@[i] as int, p.mean as int, p.std_safe as int)
        }
    }
}

/// One instrumental sample: the sum of all sources not named
/// `"vocals"`, clamped into the admissible range.
pub open spec fn inst_val(
    raw: Seq<Vec<Vec<i64>>>,
    sources: Seq<String>,
    p: NormParams,
    c: int,
    i: int,
) -> int {
    clamp_sample_i(inst_sum(raw, sources, p, raw.len() as int, c, i))
}

/// One instrumental channel.
pub open spec fn inst_channel(
    raw: Seq<Vec<Vec<i64>>>,
    sources: Seq<String>,
    p: NormParams,
    c: int,
    length: int,
) -> Seq<i64> {
    Seq::new(length as nat, |i: int| inst_val(raw, sources, p, c, i) as i64)
}

/// Finish a two-way vocal/instrumental split from the raw model
/// output.
///
/// Fails with an inference error exactly when the output shape does
/// not match.  On success the vocal stem is the source named
/// `"vocals"` (the first source when none is), shaped by the vocal
/// policy; the instrumental stem is the clamped sum of every source
/// whose name is not `"vocals"` — all of them when none carries that
/// name — shaped by the `"other"` policy; both are click-repaired
/// and named `vocal.wav` and `instrumental.wav`.
pub fn finish_vocal_instrumental(
    config: &SeparationConfig,
    raw: &Vec<Vec<Vec<i64>>>,
    p: &NormParams,
    length: usize,
) -> (r: Result<(Stem, Stem), StemError>)
    requires
        config.wf(),
        abs_i(p.mean as int) <= SAMPLE_MAX as int,
        1 <= p.std_safe <= 3 * SAMPLE_MAX,
    ensures
        r is Ok <==> outputs_shape_ok(raw@, *config, length as int),
        r is Err ==> r == Err::<(Stem, Stem), StemError>(StemError::Inference),
        r matches Ok(pair) ==> {
            let vidx = vocal_index_spec(config.sources@);
            &&& pair.0.file_name@ == "vocal.wav"@
            &&& pair.1.file_name@ == "instrumental.wav"@
            &&& pair.0.audio.wf() && pair.0.audio.sample_rate == config.sample_rate
                && pair.0.audio.nb_channels == config.channels && pair.0.audio.length == length
            &&& pair.1.audio.wf() && pair.1.audio.sample_rate == config.sample_rate
                && pair.1.audio.nb_channels == config.channels && pair.1.audio.length == length
            &&& forall|c: int|
                0 <= c < config.channels ==> (#[trigger] pair.0.audio.samples@[c])@
                    == stem_channel_spec(
                    raw@[vidx]@[c]@,
                    SourceKind::Vocals,
                    *p,
                    config.sample_rate as int,
                )
            &&& forall|c: int|
                0 <= c < config.channels ==> (#[trigger] pair.1.audio.samples@[c])@
                    == clicks_repaired(
                    shaped_channel(
                        inst_channel(raw@, config.sources@, *p, c, length as int),
                        SourceKind::Other,
                        config.sample_rate as int,
                    ),
                    config.sample_rate as int,
                )
        },
{
    let nsrc = config.sources.len();
    if raw.len() != nsrc {
        return Err(StemError::Inference);
    }
    let mut s: usize = 0;
    while s < nsrc
        invariant
            s <= nsrc,
            nsrc == config.sources@.len(),
            raw@.len() == nsrc,
            forall|t: int| 0 <= t < s ==> (#[trigger] raw@[t])@.len() == config.channels,
            forall|t: int, c: int|
                0 <= t < s && 0 <= c < raw@[t]@.len() ==> (#[trigger] raw@[t]@[c])@.len()
                    == length,
        decreases nsrc - s,
    {
        let m = &raw[s];
        if m.len() != config.channels {
            return Err(StemError::Inference);
        }
        let mut c: usize = 0;
        while c < config.channels
            invariant
                c <= config.channels,
                s < raw@.len(),
                m == &raw[s as int],
                m@.len() == config.channels,
                forall|d: int| 0 <= d < c ==> (#[trigger] m@[d])@.len() == length,
            decreases config.channels - c,
        {
            if m[c].len() != length {
                return Err(StemError::Inference);
            }
            c += 1;
        }
        s += 1;
    }
    let vidx = find_vocal_index(&config.sources);

    // which sources the instrumental must leave out, by name
    let mut is_vocal: Vec<bool> = Vec::new();
    let mut s: usize = 0;
    while s < nsrc
        invariant
            s <= nsrc,
            nsrc == config.sources@.len(),
            is_vocal@.len() == s,
            forall|t: int|
                0 <= t < s ==> (#[trigger] is_vocal@[t]) == (config.sources@[t]@ == "vocals"@),
        decreases nsrc - s,
    {
        let b = crate::stems::str_eq(config.sources[s].as_str(), "vocals");
        is_vocal.push(b);
        s += 1;
    }

    // the vocal stem
    let vocal_buf = denorm_to_buffer(&raw[vidx], p, config, length);
    let vocal_shaped = post_process_stem(&vocal_buf, "vocals");
    let vocal_repaired = remove_clicks_pops(&vocal_shaped);
    proof {
        crate::stems::lemma_known_kinds();
    }
    let vocal = Stem {
        source: String::from_str("vocal"),
        file_name: String::from_str("vocal.wav"),
        audio: vocal_repaired,
    };

    // the instrumental stem: clamped sum of every non-vocal source
    let nch = config.channels;
    let mut inst: Vec<Vec<i64>> = Vec::new();
    let mut c: usize = 0;
    while c < nch
        invariant
            c <= nch,
            config.wf(),
            abs_i(p.mean as int) <= SAMPLE_MAX as int,
            1 <= p.std_safe <= 3 * SAMPLE_MAX,
            nch == config.channels,
            nsrc == config.sources@.len(),
            vidx < nsrc,
            outputs_shape_ok(raw@, *config, length as int),
            is_vocal@.len() == nsrc,
            forall|t: int|
                0 <= t < nsrc ==> (#[trigger] is_vocal@[t]) == (config.sources@[t]@ == "vocals"@),
            inst@.len() == c,
            forall|d: int|
                0 <= d < c ==> (#[trigger] inst@[d])@ == inst_channel(
                    raw@,
                    config.sources@,
                    *p,
                    d,
                    length as int,
                ),
            forall|d: int| 0 <= d < c ==> (#[trigger] inst@[d])@.len() == length,
            forall|d: int| 0 <= d < c ==> channel_ok((#[trigger] inst@[d])@),
        decreases nch - c,
    {
        let mut row: Vec<i64> = Vec::new();
        let mut i: usize = 0;
        while i < length
            invariant
                i <= length,
                config.wf(),
                abs_i(p.mean as int) <= SAMPLE_MAX as int,
                1 <= p.std_safe <= 3 * SAMPLE_MAX,
                c < nch == config.channels,
                nsrc == config.sources@.len(),
                vidx < nsrc,
                outputs_shape_ok(raw@, *config, length as int),
                is_vocal@.len() == nsrc,
                forall|t: int|
                    0 <= t < nsrc ==> (#[trigger] is_vocal@[t]) == (config.sources@[t]@
                        == "vocals"@),
                row@.len() == i,
                forall|j: int|
                    0 <= j < i ==> (#[trigger] row@[j]) as int == inst_val(
                        raw@,
                        config.sources@,
                        *p,
                        c as int,
                        j,
                    ),
                channel_ok(row@),
            decreases length - i,
        {
            let mut acc: i128 = 0;
            let mut s: usize = 0;
            while s < nsrc
                invariant
                    s <= nsrc,
                    config.wf(),
                    abs_i(p.mean as int) <= SAMPLE_MAX as int,
                    1 <= p.std_safe <= 3 * SAMPLE_MAX,
                    c < config.channels,
                    i < length,
                    nsrc == config.sources@.len(),
                    raw@.len() == nsrc,
                    outputs_shape_ok(raw@, *config, length as int),
                    is_vocal@.len() == nsrc,
                    forall|t: int|
                        0 <= t < nsrc ==> (#[trigger] is_vocal@[t]) == (config.sources@[t]@
                            == "vocals"@),
                    acc as int == inst_sum(
                        raw@,
                        config.sources@,
                        *p,
                        s as int,
                        c as int,
                        i as int,
                    ),
                    abs_i(acc as int) <= (s as int) * (SAMPLE_MAX as int),
                decreases nsrc - s,
            {
                proof {
                    assert((s + 1) * (SAMPLE_MAX as int) == (s as int) * (SAMPLE_MAX as int) + (
                    SAMPLE_MAX as int)) by (nonlinear_arith);
                    assert((nsrc as int) * (SAMPLE_MAX as int) < i128::MAX as int)
                        by (nonlinear_arith)
                        requires
                            nsrc as int <= 0xffff_ffff_ffff_ffff,
                    ;
                }
                if !is_vocal[s] {
                    let ghost raw_v: int = raw@[s as int]@[c as int]@[i as int] as int;
                    let ch = &raw[s];
                    let x = ch[c][i];
                    // denormalize this one sample
                    proof {
                        crate::fixed::lemma_mul_bound(
                            x as int,
                            p.std_safe as int,
                            0x8000000000000000,
                            3 * (SAMPLE_MAX as int),
                        );
                        assert(0x8000000000000000 * (3 * (SAMPLE_MAX as int)) < i128::MAX as int)
                            by (nonlinear_arith);
                    }
                    let scaled: i128 = (x as i128) * (p.std_safe as i128);
                    let q: i128 = crate::fixed::div_trunc(scaled, crate::fixed::SCALE as i128);
                    proof {
                        crate::fixed::lemma_tdiv_mag(scaled as int, crate::fixed::SCALE as int);
                    }
                    let y = clamp_sample(q + p.mean as i128);
                    acc = acc + y as i128;
                }
                s += 1;
            }
            let v = clamp_sample(acc);
            row.push(v);
            i += 1;
        }
        proof {
            assert(row@ =~= inst_channel(raw@, config.sources@, *p, c as int, length as int));
        }
        inst.push(row);
        c += 1;
    }
    let inst_buf = PcmBuffer {
        samples: inst,
        sample_rate: config.sample_rate,
        nb_channels: config.channels,
        length,
    };
    let inst_shaped = post_process_stem(&inst_buf, "other");
    let inst_repaired = remove_clicks_pops(&inst_shaped);
    let instrumental = Stem {
        source: String::from_str("instrumental"),
        file_name: String::from_str("instrumental.wav"),
        audio: inst_repaired,
    };
    Ok((vocal, instrumental))
}

} // verus!
