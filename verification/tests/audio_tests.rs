use std::io::Cursor;

use text2audio::audio_merger::{AudioMerger, AudioSampleFormat, AudioSpec, MergedAudio};
use text2audio::error::Error;

fn wav_bytes(sample_rate: u32, samples: &[i16]) -> Vec<u8> {
    let spec = hound::WavSpec {
        channels: 1,
        sample_rate,
        bits_per_sample: 16,
        sample_format: hound::SampleFormat::Int,
    };
    let mut cursor = Cursor::new(Vec::new());
    {
        let mut writer = hound::WavWriter::new(&mut cursor, spec).unwrap();
        for &s in samples {
            writer.write_sample(s).unwrap();
        }
        writer.finalize().unwrap();
    }
    cursor.into_inner()
}

fn decode(bytes: &[u8]) -> (hound::WavSpec, Vec<i16>) {
    let mut reader = hound::WavReader::new(Cursor::new(bytes)).unwrap();
    let spec = reader.spec();
    let samples = reader.samples::<i16>().collect::<Result<Vec<i16>, _>>().unwrap();
    (spec, samples)
}

#[test]
fn test_empty_segments() {
    let result = AudioMerger::merge(vec![]);
    assert!(result.is_err());
}

#[test]
fn test_empty_single() {
    let result = AudioMerger::save_single(&[]);
    assert!(result.is_err());
}

#[test]
fn test_merge_concatenates_samples_in_order() {
    let a = wav_bytes(44100, &[1, 2, 3]);
    let b = wav_bytes(44100, &[4, 5]);
    let merged = AudioMerger::merge(vec![a, b]).unwrap();
    assert_eq!(merged.samples, vec![1, 2, 3, 4, 5]);
    assert_eq!(merged.spec.sample_rate, 44100);
    assert_eq!(merged.spec.channels, 1);
    assert_eq!(merged.spec.bits_per_sample, 16);

    let out = merged.to_wav_bytes().unwrap();
    let (spec, samples) = decode(&out);
    assert_eq!(samples, vec![1, 2, 3, 4, 5]);
    assert_eq!(spec.sample_rate, 44100);
}

#[test]
fn test_merge_takes_descriptor_from_first_buffer() {
    let a = wav_bytes(22050, &[7]);
    let b = wav_bytes(44100, &[8]);
    let merged = AudioMerger::merge(vec![a, b]).unwrap();
    assert_eq!(merged.spec.sample_rate, 22050);
}

#[test]
fn test_merge_corrupt_buffer_reports_index() {
    let good = wav_bytes(44100, &[1, 2]);
    let corrupt = vec![0u8; 10];
    let e = AudioMerger::merge(vec![good, corrupt]).unwrap_err();
    match e {
        Error::Audio(m) => assert!(m.starts_with("Segment 1 invalid WAV: "), "message: {}", m),
        other => panic!("unexpected error: {:?}", other),
    }
}

#[test]
fn test_merge_unparseable_first_buffer() {
    let e = AudioMerger::merge(vec![vec![0u8; 10]]).unwrap_err();
    match e {
        Error::Audio(m) => assert!(m.starts_with("Invalid WAV format: "), "message: {}", m),
        other => panic!("unexpected error: {:?}", other),
    }
}

#[test]
fn test_save_single_float_samples_is_library_error() {
    // A parseable container whose samples cannot be read as 16-bit
    // integers: the header is fine, so the failure surfaces as an
    // audio-library error rather than a format error.
    let spec = hound::WavSpec {
        channels: 1,
        sample_rate: 44100,
        bits_per_sample: 32,
        sample_format: hound::SampleFormat::Float,
    };
    let mut cursor = Cursor::new(Vec::new());
    {
        let mut writer = hound::WavWriter::new(&mut cursor, spec).unwrap();
        writer.write_sample(0.5f32).unwrap();
        writer.finalize().unwrap();
    }
    let bytes = cursor.into_inner();
    let e = AudioMerger::save_single(&bytes).unwrap_err();
    assert!(matches!(e, Error::Hound(_)), "unexpected error: {:?}", e);
}

#[test]
fn test_to_wav_bytes_refuses_zero_sample_rate() {
    // The container writer faults on a zero sample rate; the library
    // refuses the descriptor with an error instead.
    let merged = MergedAudio {
        spec: AudioSpec {
            channels: 1,
            sample_rate: 0,
            bits_per_sample: 16,
            sample_format: AudioSampleFormat::Int,
        },
        samples: vec![1, 2, 3],
    };
    let e = merged.to_wav_bytes().unwrap_err();
    match e {
        Error::Audio(m) => assert_eq!(m, "Unsupported audio format"),
        other => panic!("unexpected error: {:?}", other),
    }
}

#[test]
fn test_to_wav_bytes_refuses_zero_channels() {
    let merged = MergedAudio {
        spec: AudioSpec {
            channels: 0,
            sample_rate: 44100,
            bits_per_sample: 16,
            sample_format: AudioSampleFormat::Int,
        },
        samples: vec![1],
    };
    assert!(matches!(merged.to_wav_bytes().unwrap_err(), Error::Audio(_)));
}

#[test]
fn test_to_wav_bytes_refuses_narrow_float() {
    // Float samples are only defined at 32 bits; anything else would
    // make the writer fault.
    let merged = MergedAudio {
        spec: AudioSpec {
            channels: 1,
            sample_rate: 44100,
            bits_per_sample: 16,
            sample_format: AudioSampleFormat::Float,
        },
        samples: vec![1],
    };
    assert!(matches!(merged.to_wav_bytes().unwrap_err(), Error::Audio(_)));
}

#[test]
fn test_to_wav_bytes_refuses_frame_size_beyond_block_align() {
    // A frame of 40000 two-byte samples does not fit the container's
    // 16-bit block-align field; writing would truncate the header, so
    // the descriptor is refused.
    let merged = MergedAudio {
        spec: AudioSpec {
            channels: 40000,
            sample_rate: 1,
            bits_per_sample: 16,
            sample_format: AudioSampleFormat::Int,
        },
        samples: vec![0; 4],
    };
    let e = merged.to_wav_bytes().unwrap_err();
    match e {
        Error::Audio(m) => assert_eq!(m, "Unsupported audio format"),
        other => panic!("unexpected error: {:?}", other),
    }
}

#[test]
fn test_to_wav_bytes_eight_bit_rejects_wide_sample() {
    // An accepted 8-bit descriptor, but a sample that does not fit one
    // byte: the writer reports the sample, not a format refusal.
    let merged = MergedAudio {
        spec: AudioSpec {
            channels: 1,
            sample_rate: 8000,
            bits_per_sample: 8,
            sample_format: AudioSampleFormat::Int,
        },
        samples: vec![300],
    };
    assert!(matches!(merged.to_wav_bytes().unwrap_err(), Error::Hound(_)));
}

#[test]
fn test_to_wav_bytes_rejects_unfinished_frame() {
    // Three samples over two channels leave the last frame unfinished.
    let merged = MergedAudio {
        spec: AudioSpec {
            channels: 2,
            sample_rate: 8000,
            bits_per_sample: 16,
            sample_format: AudioSampleFormat::Int,
        },
        samples: vec![1, 2, 3],
    };
    assert!(matches!(merged.to_wav_bytes().unwrap_err(), Error::Hound(_)));
}

#[test]
fn test_save_single_8bit_round_trip() {
    let spec = hound::WavSpec {
        channels: 1,
        sample_rate: 8000,
        bits_per_sample: 8,
        sample_format: hound::SampleFormat::Int,
    };
    let mut cursor = Cursor::new(Vec::new());
    {
        let mut writer = hound::WavWriter::new(&mut cursor, spec).unwrap();
        for &s in &[5i16, -7, 120] {
            writer.write_sample(s).unwrap();
        }
        writer.finalize().unwrap();
    }
    let bytes = cursor.into_inner();
    let out = AudioMerger::save_single(&bytes).unwrap();
    let (out_spec, samples) = decode(&out);
    assert_eq!(samples, vec![5, -7, 120]);
    assert_eq!(out_spec.bits_per_sample, 8);
    assert_eq!(out_spec.sample_rate, 8000);
}

#[test]
fn test_to_wav_bytes_encodes_accepted_descriptor() {
    let merged = MergedAudio {
        spec: AudioSpec {
            channels: 1,
            sample_rate: 8000,
            bits_per_sample: 16,
            sample_format: AudioSampleFormat::Int,
        },
        samples: vec![5, -6, 7],
    };
    let out = merged.to_wav_bytes().unwrap();
    let (spec, samples) = decode(&out);
    assert_eq!(spec.sample_rate, 8000);
    assert_eq!(samples, vec![5, -6, 7]);
}

#[test]
fn test_save_single_round_trip() {
    let original = wav_bytes(16000, &[10, -20, 30]);
    let out = AudioMerger::save_single(&original).unwrap();
    let (spec, samples) = decode(&out);
    assert_eq!(samples, vec![10, -20, 30]);
    assert_eq!(spec.sample_rate, 16000);
    assert_eq!(spec.bits_per_sample, 16);
}
