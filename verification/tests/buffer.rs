//! Tests for the sample buffer and its wave-file ingestion.

use mini_leebee::audio_buffer::{AudioBuffer, WavError};
use mini_leebee::sample::{mix_sample, scale_sample, SAMPLE_UNIT};

fn wav_bytes(channels: u16, bits: u16, samples: &[i16]) -> Vec<u8> {
    let spec = hound::WavSpec {
        channels,
        sample_rate: 44100,
        bits_per_sample: bits,
        sample_format: hound::SampleFormat::Int,
    };
    let mut cursor = std::io::Cursor::new(Vec::new());
    {
        let mut writer = hound::WavWriter::new(&mut cursor, spec).unwrap();
        for s in samples {
            writer.write_sample(*s).unwrap();
        }
        writer.finalize().unwrap();
    }
    cursor.into_inner()
}

#[test]
fn fresh_buffers_are_silent() {
    for channels in 0..4 {
        for size in [0usize, 1, 7, 64] {
            let buf = AudioBuffer::new(channels, size);
            assert_eq!(buf.channels(), channels);
            assert_eq!(buf.buffer_size(), size);
            for c in 0..channels {
                for i in 0..size {
                    assert_eq!(buf.sample(c, i), 0);
                }
            }
        }
    }
}

#[test]
fn reset_clears_every_slot() {
    let mut buf = AudioBuffer::with_stereo(8);
    let src = AudioBuffer::from_mono_samples(vec![1000; 8]);
    buf.mix_from(&src, SAMPLE_UNIT);
    assert_eq!(buf.sample(0, 3), 1000);
    buf.reset();
    for c in 0..2 {
        for i in 0..8 {
            assert_eq!(buf.sample(c, i), 0);
        }
    }
}

#[test]
fn reset_with_buffer_size_reshapes_and_clears() {
    let mut buf = AudioBuffer::with_stereo(8);
    buf.set_sample(1, 2, 55);
    buf.reset_with_buffer_size(3);
    assert_eq!(buf.channels(), 2);
    assert_eq!(buf.buffer_size(), 3);
    for c in 0..2 {
        for i in 0..3 {
            assert_eq!(buf.sample(c, i), 0);
        }
    }
}

#[test]
fn mix_from_accumulates_scaled_source() {
    let mut dst = AudioBuffer::with_stereo(3);
    let mut src = AudioBuffer::with_stereo(3);
    src.set_sample(0, 0, SAMPLE_UNIT);
    src.set_sample(0, 1, -SAMPLE_UNIT);
    src.set_sample(1, 2, SAMPLE_UNIT / 2);
    let half = SAMPLE_UNIT / 2;
    dst.mix_from(&src, half);
    assert_eq!(dst.sample(0, 0), half);
    assert_eq!(dst.sample(0, 1), -half);
    assert_eq!(dst.sample(1, 2), SAMPLE_UNIT / 4);
    assert_eq!(dst.sample(1, 0), 0);
}

#[test]
fn mixing_twice_doubles_the_contribution() {
    let mut dst = AudioBuffer::with_stereo(2);
    let mut src = AudioBuffer::with_stereo(2);
    src.set_sample(0, 0, 20000);
    src.set_sample(1, 1, -4444);
    dst.mix_from(&src, SAMPLE_UNIT);
    dst.mix_from(&src, SAMPLE_UNIT);
    assert_eq!(dst.sample(0, 0), 40000);
    assert_eq!(dst.sample(1, 1), -8888);
}

#[test]
fn mix_from_truncates_to_shared_shape() {
    let mut dst = AudioBuffer::with_stereo(2);
    let src = AudioBuffer::from_mono_samples(vec![100, 200, 300]);
    dst.mix_from(&src, SAMPLE_UNIT);
    assert_eq!(dst.sample(0, 0), 100);
    assert_eq!(dst.sample(0, 1), 200);
    assert_eq!(dst.sample(1, 0), 0);
    assert_eq!(dst.sample(1, 1), 0);
}

#[test]
fn copy_first_channel_fans_out() {
    let mut buf = AudioBuffer::new(3, 2);
    buf.set_sample(0, 0, 7);
    buf.set_sample(0, 1, -9);
    buf.set_sample(2, 0, 1000);
    buf.copy_first_channel_to_all();
    for c in 0..3 {
        assert_eq!(buf.sample(c, 0), 7);
        assert_eq!(buf.sample(c, 1), -9);
    }
}

#[test]
fn scale_sample_matches_fixed_point_arithmetic() {
    assert_eq!(scale_sample(SAMPLE_UNIT, SAMPLE_UNIT), SAMPLE_UNIT);
    assert_eq!(scale_sample(SAMPLE_UNIT / 2, SAMPLE_UNIT / 2), SAMPLE_UNIT / 4);
    assert_eq!(scale_sample(-SAMPLE_UNIT / 2, SAMPLE_UNIT / 2), -SAMPLE_UNIT / 4);
    assert_eq!(scale_sample(12345, 0), 0);
    assert_eq!(scale_sample(i64::MAX, SAMPLE_UNIT * 2), i64::MAX);
    assert_eq!(scale_sample(i64::MIN, SAMPLE_UNIT * 2), i64::MIN);
}

#[test]
fn mix_sample_saturates_at_the_rails() {
    assert_eq!(mix_sample(1, 2), 3);
    assert_eq!(mix_sample(i64::MAX, 1), i64::MAX);
    assert_eq!(mix_sample(i64::MIN, -1), i64::MIN);
    assert_eq!(mix_sample(i64::MAX, i64::MIN), -1);
}

#[test]
fn with_wav_decodes_mono_sixteen_bit() {
    let bytes = wav_bytes(1, 16, &[1000, -1000, i16::MAX, i16::MIN, 0]);
    let buf = match AudioBuffer::with_wav(&bytes) {
        Ok(b) => b,
        Err(_) => panic!("expected a successful decode"),
    };
    assert_eq!(buf.channels(), 1);
    assert_eq!(buf.buffer_size(), 5);
    assert_eq!(buf.sample(0, 0), 1000 * SAMPLE_UNIT / 32767);
    assert_eq!(buf.sample(0, 1), -(1000 * SAMPLE_UNIT / 32767));
    assert_eq!(buf.sample(0, 2), SAMPLE_UNIT);
    assert_eq!(buf.sample(0, 3), -(32768 * SAMPLE_UNIT / 32767));
    assert_eq!(buf.sample(0, 4), 0);
}

#[test]
fn with_wav_refuses_stereo() {
    let bytes = wav_bytes(2, 16, &[1, 2, 3, 4]);
    assert!(matches!(AudioBuffer::with_wav(&bytes), Err(WavError::UnsupportedFormat)));
}

#[test]
fn with_wav_refuses_garbage() {
    let bytes = vec![0u8, 1, 2, 3, 4, 5, 6, 7];
    assert!(matches!(AudioBuffer::with_wav(&bytes), Err(WavError::Malformed)));
}
