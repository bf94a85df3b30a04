use stem_split::analysis::{
    detect_bpm, detect_key, estimate_bpm_from_envelope, estimate_key_from_chroma, find_peaks,
};
use stem_split::buffer::{downmix_mono, PcmBuffer};

fn mono_buffer(samples: Vec<i64>, sample_rate: usize) -> PcmBuffer {
    let length = samples.len();
    PcmBuffer { samples: vec![samples], sample_rate, nb_channels: 1, length }
}

#[test]
fn bpm_empty_is_fallback() {
    let samples: Vec<i64> = vec![];
    assert_eq!(estimate_bpm_from_envelope(&samples, 44100), 120_000);
}

#[test]
fn bpm_too_short_is_fallback() {
    // window = 4410 at 44.1 kHz; ten samples are far below 2*w
    let samples: Vec<i64> = vec![500_000; 10];
    assert_eq!(estimate_bpm_from_envelope(&samples, 44100), 120_000);
}

#[test]
fn bpm_single_peak_is_fallback() {
    // rate 10 gives a one-sample smoothing window; one spike, one peak
    let mut samples: Vec<i64> = vec![0; 41];
    samples[20] = 1_000_000;
    assert_eq!(estimate_bpm_from_envelope(&samples, 10), 120_000);
}

#[test]
fn bpm_exact_on_regular_spikes() {
    // rate 10 gives window 1: spikes at 10, 20, 30 are the peaks;
    // span 20 over 2 gaps at 10 Hz = one beat per second = 60 BPM
    let mut samples: Vec<i64> = vec![0; 41];
    samples[10] = 1_000_000;
    samples[20] = 1_000_000;
    samples[30] = 1_000_000;
    assert_eq!(estimate_bpm_from_envelope(&samples, 10), 60_000);
}

#[test]
fn bpm_exact_on_fast_spikes() {
    // spikes every 4 samples at 10 Hz: 2.5 beats per second = 150 BPM
    let mut samples: Vec<i64> = vec![0; 41];
    samples[10] = 1_000_000;
    samples[14] = 1_000_000;
    samples[18] = 1_000_000;
    assert_eq!(estimate_bpm_from_envelope(&samples, 10), 150_000);
}

#[test]
fn bpm_clamped_to_range() {
    // spikes 16 apart at 10 Hz would be 37.5 BPM; the clamp raises it
    let mut samples: Vec<i64> = vec![0; 41];
    samples[4] = 1_000_000;
    samples[20] = 1_000_000;
    samples[36] = 1_000_000;
    assert_eq!(estimate_bpm_from_envelope(&samples, 10), 60_000);
}

#[test]
fn bpm_always_within_range() {
    let mut samples: Vec<i64> = vec![100_000; 400];
    for i in 0..400 {
        if i % 37 == 0 {
            samples[i] = 900_000;
        }
    }
    let bpm = estimate_bpm_from_envelope(&samples, 100);
    assert!(bpm >= 60_000 && bpm <= 200_000);
}

#[test]
fn bpm_of_buffer_downmixes() {
    // two channels whose mean is the spike train of the mono test
    let mut left: Vec<i64> = vec![0; 41];
    let mut right: Vec<i64> = vec![0; 41];
    for &p in &[10usize, 20, 30] {
        left[p] = 1_500_000;
        right[p] = 500_000;
    }
    let track = PcmBuffer {
        samples: vec![left, right],
        sample_rate: 10,
        nb_channels: 2,
        length: 41,
    };
    assert_eq!(detect_bpm(&track), 60_000);
}

#[test]
fn downmix_is_per_sample_mean() {
    let track = PcmBuffer {
        samples: vec![vec![10, -9, 4], vec![20, -3, 5]],
        sample_rate: 100,
        nb_channels: 2,
        length: 3,
    };
    // the mean rounds toward zero: (-9 + -3)/2 = -6, (4 + 5)/2 = 4
    assert_eq!(downmix_mono(&track), vec![15, -6, 4]);
}

#[test]
fn find_peaks_empty_signal() {
    let signal: Vec<i64> = vec![];
    assert_eq!(find_peaks(&signal, 3), Vec::<usize>::new());
}

#[test]
fn find_peaks_strict_maxima_only() {
    // a plateau is never a peak: strict dominance on both sides
    let signal: Vec<i64> = vec![0, 0, 900_000, 900_000, 0, 0, 0, 800_000, 0, 0, 0, 0];
    let peaks = find_peaks(&signal, 1);
    assert_eq!(peaks, vec![7]);
}

#[test]
fn key_of_empty_track_is_c_major() {
    let track = mono_buffer(vec![], 44100);
    assert_eq!(detect_key(&track), "C major");
}

#[test]
fn key_follows_sample_count_modulo_seven() {
    let samples: Vec<i64> = vec![1; 8];
    assert_eq!(estimate_key_from_chroma(&samples, 44100), "D major");
    let samples: Vec<i64> = vec![1; 13];
    assert_eq!(estimate_key_from_chroma(&samples, 44100), "B major");
    let samples: Vec<i64> = vec![1; 14];
    assert_eq!(estimate_key_from_chroma(&samples, 44100), "C major");
}

#[test]
fn key_is_always_one_of_seven_labels() {
    let labels = [
        "C major", "D major", "E major", "F major", "G major", "A major", "B major",
    ];
    for n in 0..20usize {
        let track = mono_buffer(vec![250_000; n], 22050);
        let key = detect_key(&track);
        assert!(labels.contains(&key.as_str()));
    }
}
