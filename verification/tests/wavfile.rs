use audio_viz::wav::AudioData;
use audio_viz::wav::WavError;
use std::io::Cursor;

fn wav_bytes(channels: u16, bits: u16, float: bool, samples: &[i16]) -> Vec<u8> {
    let spec = hound::WavSpec {
        channels,
        sample_rate: 44_100,
        bits_per_sample: bits,
        sample_format: if float {
            hound::SampleFormat::Float
        } else {
            hound::SampleFormat::Int
        },
    };
    let mut cursor = Cursor::new(Vec::new());
    {
        let mut writer = hound::WavWriter::new(&mut cursor, spec).unwrap();
        if float {
            for &s in samples {
                writer.write_sample(s as f32 / 32768.0).unwrap();
            }
        } else {
            for &s in samples {
                writer.write_sample(s).unwrap();
            }
        }
        writer.finalize().unwrap();
    }
    cursor.into_inner()
}

#[test]
fn loads_mono_sixteen_bit() {
    let bytes = wav_bytes(1, 16, false, &[100, -200, 300]);
    let audio = AudioData::load_wav(&bytes).unwrap();
    assert_eq!(audio.sample_rate, 44_100);
    // Mono samples are doubled onto the shared fixed-point scale.
    assert_eq!(audio.samples_mono, vec![200, -400, 600]);
}

#[test]
fn loads_stereo_as_channel_sum() {
    let bytes = wav_bytes(2, 16, false, &[100, 300, -50, 150]);
    let audio = AudioData::load_wav(&bytes).unwrap();
    // A stereo pair averages to (l + r) / 2, held as l + r on the doubled scale.
    assert_eq!(audio.samples_mono, vec![400, 100]);
}

#[test]
fn rejects_float_samples() {
    let bytes = wav_bytes(1, 32, true, &[100, 200]);
    assert!(matches!(AudioData::load_wav(&bytes), Err(WavError::NotIntPcm)));
}

#[test]
fn rejects_unsupported_bit_depth() {
    let bytes = wav_bytes(1, 8, false, &[10, 20]);
    assert!(matches!(AudioData::load_wav(&bytes), Err(WavError::UnsupportedBitDepth(8))));
}

#[test]
fn rejects_too_many_channels() {
    let bytes = wav_bytes(4, 16, false, &[1, 2, 3, 4]);
    assert!(matches!(AudioData::load_wav(&bytes), Err(WavError::UnsupportedChannels(4))));
}

#[test]
fn rejects_unreadable_header() {
    let bytes: Vec<u8> = vec![1, 2, 3, 4, 5, 6, 7, 8];
    assert!(matches!(AudioData::load_wav(&bytes), Err(WavError::UnreadableHeader)));
}

#[test]
fn rejects_truncated_data() {
    let mut bytes = wav_bytes(1, 16, false, &[100, -200, 300, 400]);
    bytes.truncate(bytes.len() - 3);
    assert!(matches!(AudioData::load_wav(&bytes), Err(WavError::TruncatedData)));
}

#[test]
fn window_wraps_around_the_end() {
    let audio = AudioData { sample_rate: 1_000, samples_mono: vec![10, 20, 30, 40, 50] };
    let mut out: Vec<i32> = Vec::new();
    // t = 3 s at 1 kHz is sample 3000; 3000 mod 5 = 0, so the window of 4
    // centers there and wraps: indices -2, -1, 0, 1 modulo 5.
    audio.window_at_time(3_000, 4, &mut out);
    assert_eq!(out, vec![40, 50, 10, 20]);
}

#[test]
fn window_of_empty_audio_is_silence() {
    let audio = AudioData { sample_rate: 44_100, samples_mono: Vec::new() };
    let mut out: Vec<i32> = Vec::new();
    audio.window_at_time(123, 8, &mut out);
    assert_eq!(out, vec![0; 8]);
}

#[test]
fn window_is_centered_at_time_zero() {
    let audio = AudioData { sample_rate: 1_000, samples_mono: vec![1, 2, 3, 4, 5, 6] };
    let mut out: Vec<i32> = Vec::new();
    // Center 0, half width 2: indices -2..2 modulo 6.
    audio.window_at_time(0, 4, &mut out);
    assert_eq!(out, vec![5, 6, 1, 2]);
}
