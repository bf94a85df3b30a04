use stem_split::buffer::PcmBuffer;
use stem_split::loader::{
    get_available_device, validate_config, DeviceKind, LazyModelLoader, ModelHandle,
    SeparationConfig,
};
use stem_split::normalize::{compute_norm_params, denormalize_channels, normalize_buffer};
use stem_split::resample::resample;
use stem_split::split::{finish_stems, finish_vocal_instrumental, StemError};
use stem_split::split::find_vocal_index;
use stem_split::wav::decode_wav;

fn config(sources: Vec<&str>) -> SeparationConfig {
    SeparationConfig {
        sample_rate: 44100,
        channels: 2,
        sources: sources.into_iter().map(|s| s.to_string()).collect(),
    }
}

fn handle() -> ModelHandle {
    ModelHandle {
        config: config(vec!["drums", "bass", "other", "vocals"]),
        device: DeviceKind::Cpu,
        weights_path: "models/weights.pt".to_string(),
    }
}

fn wav_bytes(channels: u16, rate: u32, frames: &[[i16; 2]]) -> Vec<u8> {
    let data_len = (frames.len() * 2 * channels as usize) as u32;
    let mut b: Vec<u8> = Vec::new();
    b.extend_from_slice(b"RIFF");
    b.extend_from_slice(&(36 + data_len).to_le_bytes());
    b.extend_from_slice(b"WAVEfmt ");
    b.extend_from_slice(&16u32.to_le_bytes());
    b.extend_from_slice(&1u16.to_le_bytes());
    b.extend_from_slice(&channels.to_le_bytes());
    b.extend_from_slice(&rate.to_le_bytes());
    b.extend_from_slice(&(rate * channels as u32 * 2).to_le_bytes());
    b.extend_from_slice(&(channels * 2).to_le_bytes());
    b.extend_from_slice(&16u16.to_le_bytes());
    b.extend_from_slice(b"data");
    b.extend_from_slice(&data_len.to_le_bytes());
    for frame in frames {
        for c in 0..channels as usize {
            b.extend_from_slice(&frame[c].to_le_bytes());
        }
    }
    b
}

#[test]
fn decode_wav_reads_pcm16() {
    let bytes = wav_bytes(2, 44100, &[[16384, -16384], [32767, -32768]]);
    let track = decode_wav(&bytes).unwrap();
    assert_eq!(track.sample_rate, 44100);
    assert_eq!(track.nb_channels, 2);
    assert_eq!(track.length, 2);
    // 16384/32768 of full scale is exactly half
    assert_eq!(track.samples[0], vec![500_000, 999_969]);
    assert_eq!(track.samples[1], vec![-500_000, -1_000_000]);
}

#[test]
fn decode_wav_rejects_foreign_bytes() {
    let bytes: Vec<u8> = b"OggS-this-is-not-a-wav-file-at-all-padding-bytes".to_vec();
    assert_eq!(decode_wav(&bytes).err(), Some(StemError::Decode));
    let empty: Vec<u8> = Vec::new();
    assert_eq!(decode_wav(&empty).err(), Some(StemError::Decode));
}

#[test]
fn decode_wav_rejects_non_pcm_format() {
    let mut bytes = wav_bytes(1, 44100, &[[100, 0]]);
    bytes[20] = 3;  // a float format tag
    assert_eq!(decode_wav(&bytes).err(), Some(StemError::Decode));
}

#[test]
fn config_validation() {
    assert!(validate_config(&config(vec!["drums"])).is_ok());
    let mut bad = config(vec!["drums"]);
    bad.sample_rate = 0;
    assert_eq!(validate_config(&bad).err(), Some(StemError::Config));
    let mut bad = config(vec!["drums"]);
    bad.channels = 0;
    assert_eq!(validate_config(&bad).err(), Some(StemError::Config));
    let bad = config(vec![]);
    assert_eq!(validate_config(&bad).err(), Some(StemError::Config));
}

#[test]
fn device_selection_priority() {
    assert_eq!(get_available_device(true, true), DeviceKind::PrimaryAccelerator);
    assert_eq!(get_available_device(true, false), DeviceKind::PrimaryAccelerator);
    assert_eq!(get_available_device(false, true), DeviceKind::SecondaryAccelerator);
    assert_eq!(get_available_device(false, false), DeviceKind::Cpu);
}

#[test]
fn loader_concurrency_single_load() {
    // N requests against an unloaded loader, served one at a time as
    // the lock enforces: exactly one load, N inferences
    let mut loader = LazyModelLoader::new();
    let mut loads = 0usize;
    let mut inferences = 0usize;
    for _ in 0..5 {
        if loader.needs_load() {
            loads += 1;
            loader.install(handle());
        }
        match loader.cached_handle() {
            Some(_) => inferences += 1,
            None => panic!("handle must be cached after install"),
        }
    }
    assert_eq!(loads, 1);
    assert_eq!(inferences, 5);
}

#[test]
fn loader_retries_after_failed_load() {
    // a failed load installs nothing; the next request tries again
    let mut loader = LazyModelLoader::new();
    assert!(loader.needs_load());
    // the outside load fails: nothing installed
    assert!(loader.needs_load());
    loader.install(handle());
    assert!(!loader.needs_load());
    loader.invalidate();
    assert!(loader.needs_load());
}

#[test]
fn norm_params_exact_small_buffer() {
    let b = PcmBuffer {
        samples: vec![vec![2, 4, 7]],
        sample_rate: 44100,
        nb_channels: 1,
        length: 3,
    };
    let p = compute_norm_params(&b);
    // mean 13/3 truncated; squared deviations 4 + 0 + 9 over n-1 = 6,
    // whose integer square root is 2
    assert_eq!(p.mean, 4);
    assert_eq!(p.std_safe, 2);
}

#[test]
fn norm_params_floor_deviation_on_silence() {
    let b = PcmBuffer {
        samples: vec![vec![0; 16], vec![0; 16]],
        sample_rate: 44100,
        nb_channels: 2,
        length: 16,
    };
    let p = compute_norm_params(&b);
    assert_eq!(p.mean, 0);
    assert_eq!(p.std_safe, 1);
}

#[test]
fn norm_params_full_scale_pair() {
    let b = PcmBuffer {
        samples: vec![vec![1_000_000, -1_000_000]],
        sample_rate: 44100,
        nb_channels: 1,
        length: 2,
    };
    let p = compute_norm_params(&b);
    // variance (1e12 + 1e12) / 1 = 2e12; isqrt is 1414213
    assert_eq!(p.mean, 0);
    assert_eq!(p.std_safe, 1_414_213);
}

#[test]
fn normalize_round_trip_within_tolerance() {
    let b = PcmBuffer {
        samples: vec![vec![900_000, -300_000, 150_000, 0], vec![-900_000, 300_000, -150_000, 1]],
        sample_rate: 44100,
        nb_channels: 2,
        length: 4,
    };
    let p = compute_norm_params(&b);
    let normalized = normalize_buffer(&b, &p);
    let back = denormalize_channels(&normalized, &p);
    let tol = p.std_safe / 1_000_000 + 1;
    for c in 0..2 {
        for i in 0..4 {
            let diff = (back[c][i] - b.samples[c][i]).abs();
            assert!(diff <= tol, "channel {} frame {}: off by {}", c, i, diff);
        }
    }
}

#[test]
fn finish_stems_rejects_wrong_source_count() {
    let cfg = config(vec!["drums", "bass"]);
    let p = stem_split::normalize::NormParams { mean: 0, std_safe: 1 };
    let raw = vec![vec![vec![0i64; 8]; 2]];
    assert_eq!(finish_stems(&cfg, &raw, &p, 8).err(), Some(StemError::Inference));
}

#[test]
fn finish_stems_rejects_wrong_channel_length() {
    let cfg = config(vec!["drums"]);
    let p = stem_split::normalize::NormParams { mean: 0, std_safe: 1 };
    let raw = vec![vec![vec![0i64; 8], vec![0i64; 7]]];
    assert_eq!(finish_stems(&cfg, &raw, &p, 8).err(), Some(StemError::Inference));
}

#[test]
fn finish_stems_names_files_after_sources() {
    let cfg = config(vec!["drums", "piano"]);
    let p = stem_split::normalize::NormParams { mean: 0, std_safe: 1_000_000 };
    let raw = vec![vec![vec![0i64; 8]; 2], vec![vec![0i64; 8]; 2]];
    let stems = finish_stems(&cfg, &raw, &p, 8).unwrap();
    assert_eq!(stems.len(), 2);
    assert_eq!(stems[0].source, "drums");
    assert_eq!(stems[0].file_name, "drums.wav");
    assert_eq!(stems[1].file_name, "piano.wav");
    for stem in &stems {
        assert_eq!(stem.audio.nb_channels, 2);
        assert_eq!(stem.audio.length, 8);
    }
}

#[test]
fn finish_stems_denormalizes_drums_exactly() {
    // unit deviation and zero mean: denormalization divides the raw
    // values by the scale factor of one, i.e. keeps them; the drums
    // policy leaves them untouched and no sample trips click repair
    let cfg = SeparationConfig {
        sample_rate: 44100,
        channels: 1,
        sources: vec!["drums".to_string()],
    };
    let p = stem_split::normalize::NormParams { mean: 0, std_safe: 1_000_000 };
    let raw = vec![vec![vec![5, -7, 100_000, -100_000, 9, 4, 3, 2]]];
    let stems = finish_stems(&cfg, &raw, &p, 8).unwrap();
    assert_eq!(stems[0].audio.samples[0], vec![5, -7, 100_000, -100_000, 9, 4, 3, 2]);
}

#[test]
fn vocal_instrumental_names_and_mix() {
    // sources [drums, vocals]: the instrumental is drums alone
    let cfg = config(vec!["drums", "vocals"]);
    let p = stem_split::normalize::NormParams { mean: 0, std_safe: 1_000_000 };
    let drums = vec![vec![10i64; 8], vec![20i64; 8]];
    let vocals = vec![vec![30i64; 8], vec![40i64; 8]];
    let raw = vec![drums, vocals];
    let (vocal, instrumental) = finish_vocal_instrumental(&cfg, &raw, &p, 8).unwrap();
    assert_eq!(vocal.file_name, "vocal.wav");
    assert_eq!(instrumental.file_name, "instrumental.wav");
    assert_eq!(vocal.audio.nb_channels, 2);
    assert_eq!(instrumental.audio.nb_channels, 2);
    assert_eq!(instrumental.audio.length, 8);
}

#[test]
fn vocal_index_prefers_vocals_else_first() {
    let named: Vec<String> = vec!["drums".to_string(), "vocals".to_string(), "other".to_string()];
    assert_eq!(find_vocal_index(&named), 1);
    let unnamed: Vec<String> = vec!["drums".to_string(), "bass".to_string()];
    assert_eq!(find_vocal_index(&unnamed), 0);
}

#[test]
fn vocal_defaults_to_first_source_without_vocals() {
    // no source is named "vocals": the vocal stem falls back to the
    // first source, but the instrumental still sums every source
    // whose name is not "vocals" — here, all of them
    let cfg = SeparationConfig {
        sample_rate: 44100,
        channels: 1,
        sources: vec!["drums".to_string(), "bass".to_string()],
    };
    let p = stem_split::normalize::NormParams { mean: 0, std_safe: 1_000_000 };
    let raw = vec![vec![vec![10i64; 8]], vec![vec![20i64; 8]]];
    let (vocal, instrumental) = finish_vocal_instrumental(&cfg, &raw, &p, 8).unwrap();
    assert_eq!(vocal.file_name, "vocal.wav");
    assert_eq!(instrumental.file_name, "instrumental.wav");

    // the instrumental is drums + bass processed under the "other"
    // policy; compute the same through the library's own stages
    let summed = PcmBuffer {
        samples: vec![vec![30i64; 8]],
        sample_rate: 44100,
        nb_channels: 1,
        length: 8,
    };
    let expected = stem_split::stems::remove_clicks_pops(&stem_split::stems::post_process_stem(
        &summed, "other",
    ));
    assert_eq!(instrumental.audio.samples, expected.samples);

    // the vocal stem carries source 0 under the "vocals" policy
    let first = PcmBuffer {
        samples: vec![vec![10i64; 8]],
        sample_rate: 44100,
        nb_channels: 1,
        length: 8,
    };
    let expected_vocal = stem_split::stems::remove_clicks_pops(&stem_split::stems::post_process_stem(
        &first, "vocals",
    ));
    assert_eq!(vocal.audio.samples, expected_vocal.samples);
}

#[test]
fn instrumental_excludes_every_vocals_source() {
    // two sources both named "vocals": the instrumental excludes both
    let cfg = SeparationConfig {
        sample_rate: 44100,
        channels: 1,
        sources: vec!["vocals".to_string(), "vocals".to_string()],
    };
    let p = stem_split::normalize::NormParams { mean: 0, std_safe: 1_000_000 };
    let raw = vec![vec![vec![500_000i64; 8]], vec![vec![250_000i64; 8]]];
    let (_, instrumental) = finish_vocal_instrumental(&cfg, &raw, &p, 8).unwrap();
    assert_eq!(instrumental.audio.samples, vec![vec![0i64; 8]]);
}

#[test]
fn vocal_instrumental_rejects_bad_shape() {
    let cfg = config(vec!["drums", "vocals"]);
    let p = stem_split::normalize::NormParams { mean: 0, std_safe: 1 };
    let raw = vec![vec![vec![0i64; 8]; 2]];
    assert!(finish_vocal_instrumental(&cfg, &raw, &p, 8).is_err());
}

#[test]
fn resample_identity_at_same_rate() {
    let b = PcmBuffer {
        samples: vec![vec![1, 2, 3, 4]],
        sample_rate: 100,
        nb_channels: 1,
        length: 4,
    };
    let out = resample(b, 100).unwrap();
    assert_eq!(out.sample_rate, 100);
    assert_eq!(out.samples, vec![vec![1, 2, 3, 4]]);
}

#[test]
fn resample_rejects_zero_rate() {
    let b = PcmBuffer {
        samples: vec![vec![1, 2, 3, 4]],
        sample_rate: 100,
        nb_channels: 1,
        length: 4,
    };
    assert_eq!(resample(b, 0).err(), Some(StemError::Resample));
}

#[test]
fn resample_doubles_by_linear_interpolation() {
    let b = PcmBuffer {
        samples: vec![vec![0, 1_000_000, 2_000_000, 3_000_000]],
        sample_rate: 100,
        nb_channels: 1,
        length: 4,
    };
    let out = resample(b, 200).unwrap();
    assert_eq!(out.length, 8);
    assert_eq!(
        out.samples[0],
        vec![0, 500_000, 1_000_000, 1_500_000, 2_000_000, 2_500_000, 3_000_000, 3_000_000]
    );
}

#[test]
fn resample_halves_length() {
    let b = PcmBuffer {
        samples: vec![(0..8).map(|i| i * 100_000).collect()],
        sample_rate: 200,
        nb_channels: 1,
        length: 8,
    };
    let out = resample(b, 100).unwrap();
    assert_eq!(out.length, 4);
    assert_eq!(out.samples[0], vec![0, 200_000, 400_000, 600_000]);
}
