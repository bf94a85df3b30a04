//! Per-stem post-processing policy.
//!
//! Every separated source name selects a fixed shaping policy:
//!
//! | source        | policy                                             |
//! |---------------|----------------------------------------------------|
//! | `other`       | high-pass at 80 Hz, then moving-average smoothing  |
//! | `bass`        | low-pass at 400 Hz                                 |
//! | `vocals`      | band-pass 300–3400 Hz                              |
//! | `drums`       | none                                               |
//! | `guitar`      | band-pass 80–8000 Hz                               |
//! | `piano`       | band-pass 80–15000 Hz                              |
//! | anything else | none                                               |
//!
//! After shaping, every source's channels additionally run through
//! click repair.

use vstd::prelude::*;

use crate::buffer::PcmBuffer;
use crate::filters::apply_band_pass_filter;
use crate::filters::apply_high_pass_filter;
use crate::filters::apply_low_pass_filter;
use crate::filters::bp_channel;
use crate::filters::hp_channel;
use crate::filters::lp_channel;
use crate::fixed::channel_ok;
use crate::fixed::copy_channel;
use crate::noise::apply_noise_reduction;
use crate::noise::noise_reduced;
use crate::repair::clicks_repaired;
use crate::repair::repair_channel;

verus! {

/// The recognized separation sources.
#[derive(Clone, Copy, Debug, PartialEq, Eq, Structural)]
pub enum SourceKind {
    Other,
    Bass,
    Vocals,
    Drums,
    Guitar,
    Piano,
    Unrecognized,
}

/// Which source a name denotes; any unknown name maps to
/// [`SourceKind::Unrecognized`] and is passed through unshaped.
pub open spec fn source_kind_of(name: Seq<char>) -> SourceKind {
    if name == "other"@ {
        SourceKind::Other
    } else if name == "bass"@ {
        SourceKind::Bass
    } else if name == "vocals"@ {
        SourceKind::Vocals
    } else if name == "drums"@ {
        SourceKind::Drums
    } else if name == "guitar"@ {
        SourceKind::Guitar
    } else if name == "piano"@ {
        SourceKind::Piano
    } else {
        SourceKind::Unrecognized
    }
}

/// The two literal source names the two-way split relies on resolve
/// to their kinds.
pub proof fn lemma_known_kinds()
    ensures
        source_kind_of("vocals"@) == SourceKind::Vocals,
        source_kind_of("other"@) == SourceKind::Other,
{
    reveal_strlit("vocals");
    reveal_strlit("other");
    reveal_strlit("bass");
    assert("vocals"@.len() == 6);
    assert("other"@.len() == 5);
    assert("bass"@.len() == 4);
    assert("vocals"@ != "other"@);
    assert("vocals"@ != "bass"@);
}

/// String equality on views.
pub(crate) fn str_eq(a: &str, b: &str) -> (r: bool)
    ensures
        r == (a@ == b@),
{
    let x: String = a.to_owned();
    let y: String = b.to_owned();
    x.eq(&y)
}

/// Resolve a source name to its kind.
pub fn kind_of_source(name: &str) -> (k: SourceKind)
    ensures
        k == source_kind_of(name@),
{
    if str_eq(name, "other") {
        SourceKind::Other
    } else if str_eq(name, "bass") {
        SourceKind::Bass
    } else if str_eq(name, "vocals") {
        SourceKind::Vocals
    } else if str_eq(name, "drums") {
        SourceKind::Drums
    } else if str_eq(name, "guitar") {
        SourceKind::Guitar
    } else if str_eq(name, "piano") {
        SourceKind::Piano
    } else {
        SourceKind::Unrecognized
    }
}

/// One channel after the shaping policy of `kind` has been applied.
pub open spec fn shaped_channel(x: Seq<i64>, kind: SourceKind, sr: int) -> Seq<i64> {
    match kind {
        SourceKind::Other => noise_reduced(hp_channel(x, sr, 80), sr),
        SourceKind::Bass => lp_channel(x, sr, 400),
        SourceKind::Vocals => bp_channel(x, sr, 300, 3400),
        SourceKind::Drums => x,
        SourceKind::Guitar => bp_channel(x, sr, 80, 8000),
        SourceKind::Piano => bp_channel(x, sr, 80, 15000),
        SourceKind::Unrecognized => x,
    }
}

/// Apply the shaping policy of `kind` to one channel.
pub fn shape_channel(samples: &Vec<i64>, kind: SourceKind, sample_rate: usize) -> (out: Vec<i64>)
    requires
        channel_ok(samples@),
        1 <= sample_rate <= crate::fixed::MAX_RATE,
    ensures
        out@ == shaped_channel(samples@, kind, sample_rate as int),
        out@.len() == samples@.len(),
        channel_ok(out@),
{
    match kind {
        SourceKind::Other => {
            let highed = apply_high_pass_filter(samples, sample_rate, 80);
            apply_noise_reduction(&highed, sample_rate)
        },
        SourceKind::Bass => apply_low_pass_filter(samples, sample_rate, 400),
        SourceKind::Vocals => apply_band_pass_filter(samples, sample_rate, 300, 3400),
        SourceKind::Drums => copy_channel(samples),
        SourceKind::Guitar => apply_band_pass_filter(samples, sample_rate, 80, 8000),
        SourceKind::Piano => apply_band_pass_filter(samples, sample_rate, 80, 15000),
        SourceKind::Unrecognized => copy_channel(samples),
    }
}

/// Shape every channel of a stem according to its source name.
pub fn post_process_stem(buffer: &PcmBuffer, stem_type: &str) -> (out: PcmBuffer)
    requires
        buffer.wf(),
    ensures
        out.wf(),
        out.sample_rate == buffer.sample_rate,
        out.nb_channels == buffer.nb_channels,
        out.length == buffer.length,
        forall|c: int|
            0 <= c < buffer.samples@.len() ==> (#[trigger] out.samples@[c])@ == shaped_channel(
                buffer.samples@[c]@,
                source_kind_of(stem_type@),
                buffer.sample_rate as int,
            ),
{
    let kind = kind_of_source(stem_type);
    let nch = buffer.samples.len();
    let mut shaped: Vec<Vec<i64>> = Vec::new();
    let mut c: usize = 0;
    while c < nch
        invariant
            c <= nch,
            buffer.wf(),
            nch == buffer.samples@.len(),
            kind == source_kind_of(stem_type@),
            shaped@.len() == c,
            forall|d: int|
                0 <= d < c ==> (#[trigger] shaped@[d])@ == shaped_channel(
                    buffer.samples@[d]@,
                    kind,
                    buffer.sample_rate as int,
                ),
            forall|d: int| 0 <= d < c ==> (#[trigger] shaped@[d])@.len() == buffer.length,
            forall|d: int| 0 <= d < c ==> channel_ok((#[trigger] shaped@[d])@),
        decreases nch - c,
    {
        let ch = shape_channel(&buffer.samples[c], kind, buffer.sample_rate);
        shaped.push(ch);
        c += 1;
    }
    PcmBuffer {
        samples: shaped,
        sample_rate: buffer.sample_rate,
        nb_channels: buffer.nb_channels,
        length: buffer.length,
    }
}

/// Run click repair over every channel of a stem.
pub fn remove_clicks_pops(buffer: &PcmBuffer) -> (out: PcmBuffer)
    requires
        buffer.wf(),
    ensures
        out.wf(),
        out.sample_rate == buffer.sample_rate,
        out.nb_channels == buffer.nb_channels,
        out.length == buffer.length,
        forall|c: int|
            0 <= c < buffer.samples@.len() ==> (#[trigger] out.samples@[c])@ == clicks_repaired(
                buffer.samples@[c]@,
                buffer.sample_rate as int,
            ),
{
    let nch = buffer.samples.len();
    let mut repaired: Vec<Vec<i64>> = Vec::new();
    let mut c: usize = 0;
    while c < nch
        invariant
            c <= nch,
            buffer.wf(),
            nch == buffer.samples@.len(),
            repaired@.len() == c,
            forall|d: int|
                0 <= d < c ==> (#[trigger] repaired@[d])@ == clicks_repaired(
                    buffer.samples@[d]@,
                    buffer.sample_rate as int,
                ),
            forall|d: int| 0 <= d < c ==> (#[trigger] repaired@[d])@.len() == buffer.length,
            forall|d: int| 0 <= d < c ==> channel_ok((#[trigger] repaired@[d])@),
        decreases nch - c,
    {
        let ch = repair_channel(&buffer.samples[c], buffer.sample_rate);
        repaired.push(ch);
        c += 1;
    }
    PcmBuffer {
        samples: repaired,
        sample_rate: buffer.sample_rate,
        nb_channels: buffer.nb_channels,
        length: buffer.length,
    }
}

} // verus!
