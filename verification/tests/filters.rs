use stem_split::filters::{apply_band_pass_filter, apply_high_pass_filter, apply_low_pass_filter};
use stem_split::noise::apply_noise_reduction;
use stem_split::repair::repair_channel;
use stem_split::stems::{kind_of_source, post_process_stem, remove_clicks_pops, SourceKind};
use stem_split::buffer::PcmBuffer;

/// A two-tone test signal: a slow square wave with a fast alternation
/// on top.
fn two_tone(len: usize) -> Vec<i64> {
    let mut out = Vec::with_capacity(len);
    for i in 0..len {
        let slow: i64 = if (i / 16) % 2 == 0 { 400_000 } else { -400_000 };
        let fast: i64 = if i % 2 == 0 { 200_000 } else { -200_000 };
        out.push(slow + fast);
    }
    out
}

#[test]
fn band_pass_order_matters() {
    // high-pass then low-pass is the band-pass; the reverse order
    // gives a different signal on a two-tone input
    let x = two_tone(64);
    let bp = apply_band_pass_filter(&x, 44100, 300, 3400);
    let lowed = apply_low_pass_filter(&x, 44100, 3400);
    let reversed = apply_high_pass_filter(&lowed, 44100, 300);
    assert_eq!(bp.len(), reversed.len());
    assert_ne!(bp, reversed);
}

#[test]
fn band_pass_is_high_pass_then_low_pass() {
    let x = two_tone(64);
    let highed = apply_high_pass_filter(&x, 44100, 300);
    let then_lowed = apply_low_pass_filter(&highed, 44100, 3400);
    assert_eq!(apply_band_pass_filter(&x, 44100, 300, 3400), then_lowed);
}

#[test]
fn low_pass_keeps_constant_signal_close() {
    // a constant signal is all low frequency; the low-pass converges
    // toward it and never overshoots
    let x: Vec<i64> = vec![500_000; 256];
    let y = apply_low_pass_filter(&x, 44100, 400);
    for (i, &v) in y.iter().enumerate() {
        assert!(v >= 0 && v <= 500_000, "sample {} out of range: {}", i, v);
    }
    assert!(*y.last().unwrap() > 0);
}

#[test]
fn high_pass_attenuates_constant_signal() {
    // a constant signal is pure zero frequency; the high-pass drives
    // it toward zero
    let x: Vec<i64> = vec![500_000; 4096];
    let y = apply_high_pass_filter(&x, 44100, 80);
    let first = y[0].abs();
    let last = y[4095].abs();
    assert!(last < first / 10);
}

#[test]
fn filters_on_silence_are_silent() {
    let x: Vec<i64> = vec![0; 128];
    assert_eq!(apply_high_pass_filter(&x, 44100, 80), x);
    assert_eq!(apply_low_pass_filter(&x, 44100, 400), x);
    assert_eq!(apply_band_pass_filter(&x, 44100, 300, 3400), x);
}

#[test]
fn noise_reduction_is_noop_on_short_channel() {
    // at 44.1 kHz the half-window is 441; 100 samples are below 2*w
    let x: Vec<i64> = vec![123_456, -654_321, 999_999, 0, 42];
    let x100: Vec<i64> = x.iter().cycle().take(100).cloned().collect();
    assert_eq!(apply_noise_reduction(&x100, 44100), x100);
}

#[test]
fn noise_reduction_blends_interior_only() {
    // rate 200 gives half-window 2; edges stay exact
    let x: Vec<i64> = vec![100_000, -200_000, 300_000, -400_000, 500_000, -600_000, 700_000];
    let y = apply_noise_reduction(&x, 200);
    assert_eq!(y.len(), x.len());
    assert_eq!(&y[0..2], &x[0..2]);
    assert_eq!(&y[5..7], &x[5..7]);
    // interior index 2: smoothed = (100000-200000+300000-400000)/4 = -50000
    // blend = (7*300000 + 3*(-50000))/10 = 195000
    assert_eq!(y[2], 195_000);
}

#[test]
fn click_repair_replaces_isolated_spike() {
    // rate 2000 gives half-window 2; a lone full-scale spike among
    // 0.1-amplitude neighbors is replaced by the neighbor average
    let mut x: Vec<i64> = vec![100_000; 11];
    x[5] = 1_000_000;
    let y = repair_channel(&x, 2000);
    assert_eq!(y[5], 100_000);
    for i in 0..11 {
        if i != 5 {
            assert_eq!(y[i], x[i]);
        }
    }
}

#[test]
fn click_repair_keeps_negative_sign() {
    let mut x: Vec<i64> = vec![-100_000; 11];
    x[5] = -1_000_000;
    let y = repair_channel(&x, 2000);
    assert_eq!(y[5], -100_000);
}

#[test]
fn click_repair_never_touches_edges() {
    // full-scale spikes inside the half-window of either end stay
    let w = 2usize; // rate 2000
    let mut x: Vec<i64> = vec![100_000; 12];
    x[0] = 1_000_000;
    x[1] = 1_000_000;
    x[10] = 1_000_000;
    x[11] = 1_000_000;
    let y = repair_channel(&x, 2000);
    assert_eq!(&y[0..w], &x[0..w]);
    assert_eq!(&y[12 - w..12], &x[12 - w..12]);
}

#[test]
fn click_repair_leaves_loud_but_consistent_signal() {
    // everything near full scale: above the clip threshold but never
    // three times the neighborhood average
    let x: Vec<i64> = vec![950_000; 16];
    assert_eq!(repair_channel(&x, 2000), x);
}

#[test]
fn source_kinds_resolve_by_name() {
    assert_eq!(kind_of_source("other"), SourceKind::Other);
    assert_eq!(kind_of_source("bass"), SourceKind::Bass);
    assert_eq!(kind_of_source("vocals"), SourceKind::Vocals);
    assert_eq!(kind_of_source("drums"), SourceKind::Drums);
    assert_eq!(kind_of_source("guitar"), SourceKind::Guitar);
    assert_eq!(kind_of_source("piano"), SourceKind::Piano);
    assert_eq!(kind_of_source("flute"), SourceKind::Unrecognized);
}

#[test]
fn unrecognized_source_passes_through() {
    let buf = PcmBuffer {
        samples: vec![two_tone(64), two_tone(64)],
        sample_rate: 44100,
        nb_channels: 2,
        length: 64,
    };
    let out = post_process_stem(&buf, "flute");
    assert_eq!(out.samples, buf.samples);
}

#[test]
fn filter_bank_on_silent_second_of_stereo() {
    // a 2-channel 44.1 kHz second of silence through every policy:
    // shape is preserved and the output is silence again
    let silent = vec![0i64; 44100];
    for name in ["other", "bass", "vocals", "drums", "guitar", "piano"] {
        let buf = PcmBuffer {
            samples: vec![silent.clone(), silent.clone()],
            sample_rate: 44100,
            nb_channels: 2,
            length: 44100,
        };
        let shaped = post_process_stem(&buf, name);
        let out = remove_clicks_pops(&shaped);
        assert_eq!(out.nb_channels, 2, "channel count changed for {}", name);
        assert_eq!(out.length, 44100, "length changed for {}", name);
        assert_eq!(out.samples.len(), 2);
        for ch in &out.samples {
            assert_eq!(ch.len(), 44100, "channel length changed for {}", name);
            for &v in ch.iter() {
                assert_eq!(v, 0, "silence disturbed for {}", name);
            }
        }
    }
}
