use whispercat::audio::buffer::AudioBuffer;
use whispercat::audio::compressor::AudioCompressor;
use whispercat::audio::processor::SilenceRemover;

#[test]
fn test_duration_calculation() {
    let buffer = AudioBuffer {
        samples: vec![0; 16000],  // 1 second at 16kHz mono
        sample_rate: 16000,
        channels: 1,
    };

    assert_eq!(buffer.duration_ms(), 1000);
}

#[test]
fn test_rms_calculation() {
    // Amplitudes 0.0, 0.1, 0.2, 0.1, 0.0 in millionths of full scale,
    // in one window: the RMS is about 0.1095.
    let audio = AudioBuffer {
        samples: vec![0, 100000, 200000, 100000, 0],
        sample_rate: 50,
        channels: 1,
    };
    let remover = SilenceRemover::new(0, 1500);
    let (_result, analysis) = remover.remove_silence(&audio).unwrap();

    let rms = analysis.avg_rms as f64 / 1_000_000.0;
    assert!((rms - 0.1095).abs() < 0.001);
}

#[test]
fn test_rms_silent() {
    let audio = AudioBuffer { samples: vec![0, 0, 0], sample_rate: 30, channels: 1 };
    let remover = SilenceRemover::new(0, 1500);
    let (_result, analysis) = remover.remove_silence(&audio).unwrap();

    assert_eq!(analysis.avg_rms, 0);
    assert_eq!(analysis.min_rms, 0);
    assert_eq!(analysis.max_rms, 0);
}

#[test]
fn test_silence_removal() {
    // One second of sound, two seconds of silence, one second of sound,
    // at 16 kHz mono; amplitude 0.5 is 500000 in fixed point.
    let mut samples = Vec::new();
    samples.extend(vec![500000; 16000]);
    samples.extend(vec![0; 32000]);
    samples.extend(vec![500000; 16000]);

    let audio = AudioBuffer { samples, sample_rate: 16000, channels: 1 };

    // Threshold 0.01 in fixed point, at least 1.5 s of silence.
    let remover = SilenceRemover::new(10000, 1500);
    let (result, analysis) = remover.remove_silence(&audio).unwrap();

    assert!(result.duration_ms() < audio.duration_ms());
    assert!(analysis.reduction_percent > 0);
    assert!(!analysis.silence_regions.is_empty());

    // Exactly one region is removed and almost exactly the two silent
    // seconds go: the result is two seconds long.
    assert_eq!(analysis.silence_regions.len(), 1);
    assert_eq!(analysis.silence_regions[0].start_frame, 16000);
    assert_eq!(analysis.silence_regions[0].end_frame, 48000);
    assert_eq!(result.duration_ms(), 2000);
    assert_eq!(analysis.reduction_percent, 50);
}

#[test]
fn test_no_silence_keeps_buffer_identical() {
    let audio = AudioBuffer {
        samples: vec![500000; 4800],
        sample_rate: 16000,
        channels: 1,
    };
    let remover = SilenceRemover::new(10000, 1500);
    let (result, analysis) = remover.remove_silence(&audio).unwrap();

    assert_eq!(result.samples, audio.samples);
    assert!(analysis.silence_regions.is_empty());
    assert_eq!(analysis.reduction_percent, 0);
    assert_eq!(analysis.new_duration_ms, analysis.original_duration_ms);
}

#[test]
fn test_short_silent_runs_stay() {
    // Half a second of silence is below the 1.5 s minimum: nothing is cut.
    let mut samples = Vec::new();
    samples.extend(vec![500000; 16000]);
    samples.extend(vec![0; 8000]);
    samples.extend(vec![500000; 16000]);
    let audio = AudioBuffer { samples, sample_rate: 16000, channels: 1 };

    let remover = SilenceRemover::new(10000, 1500);
    let (result, analysis) = remover.remove_silence(&audio).unwrap();

    assert!(analysis.silence_regions.is_empty());
    assert_eq!(result.samples.len(), audio.samples.len());
}

#[test]
fn test_trailing_silence_is_removed() {
    let mut samples = Vec::new();
    samples.extend(vec![500000; 16000]);
    samples.extend(vec![0; 32000]);
    let audio = AudioBuffer { samples, sample_rate: 16000, channels: 1 };

    let remover = SilenceRemover::new(10000, 1500);
    let (result, analysis) = remover.remove_silence(&audio).unwrap();

    assert_eq!(analysis.silence_regions.len(), 1);
    assert_eq!(analysis.silence_regions[0].start_frame, 16000);
    assert_eq!(analysis.silence_regions[0].end_frame, 48000);
    assert_eq!(result.samples.len(), 16000);
}

#[test]
fn test_empty_buffer_all_statistics_zero() {
    let audio = AudioBuffer::new(16000, 1);
    let remover = SilenceRemover::new(10000, 1500);
    let (result, analysis) = remover.remove_silence(&audio).unwrap();

    assert_eq!(result.samples.len(), 0);
    assert_eq!(analysis.min_rms, 0);
    assert_eq!(analysis.max_rms, 0);
    assert_eq!(analysis.avg_rms, 0);
    assert_eq!(analysis.reduction_percent, 0);
    assert_eq!(analysis.original_duration_ms, 0);
    assert_eq!(analysis.new_duration_ms, 0);
}

#[test]
fn test_file_size_check() {
    // A tiny file ("hello world" is 11 bytes) needs no compression.
    assert!(!AudioCompressor::needs_compression(11));
}

#[test]
fn test_file_size_threshold_exact() {
    assert!(!AudioCompressor::needs_compression(24 * 1024 * 1024));
    assert!(AudioCompressor::needs_compression(24 * 1024 * 1024 + 1));
}
