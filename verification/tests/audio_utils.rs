use handy::audio_utils::pcm_to_wav;

/// Scales samples in [-1.0, 1.0] to 16-bit PCM the way the application does.
fn to_pcm16(samples: &[f32]) -> Vec<i16> {
    samples
        .iter()
        .map(|&s| (s.max(-1.0).min(1.0) * i16::MAX as f32) as i16)
        .collect()
}

#[test]
fn test_pcm_to_wav_conversion() {
    // Create a simple sine wave
    let sample_rate = 16000;
    let duration = 0.1; // 100ms
    let frequency = 440.0; // A4

    let samples: Vec<f32> = (0..(sample_rate as f32 * duration) as u32)
        .map(|t| (2.0 * std::f32::consts::PI * frequency * t as f32 / sample_rate as f32).sin())
        .collect();

    let wav_data = pcm_to_wav(&to_pcm16(&samples), sample_rate);

    // Check WAV header
    assert_eq!(&wav_data[0..4], b"RIFF");
    assert_eq!(&wav_data[8..12], b"WAVE");
    assert_eq!(&wav_data[12..16], b"fmt ");
    assert_eq!(&wav_data[36..40], b"data");

    // Check file size (44 byte header + 2 bytes per sample)
    let expected_size = 44 + samples.len() * 2;
    assert_eq!(wav_data.len(), expected_size);
}

#[test]
fn test_empty_audio() {
    let wav_data = pcm_to_wav(&[], 16000);
    assert_eq!(wav_data.len(), 44); // Header only
}

#[test]
fn header_bytes_are_exact() {
    let wav = pcm_to_wav(&[0x1234, -2], 16000);
    let expected: Vec<u8> = vec![
        b'R', b'I', b'F', b'F', 40, 0, 0, 0, // RIFF size = 36 + 4
        b'W', b'A', b'V', b'E', b'f', b'm', b't', b' ', 16, 0, 0, 0, // fmt chunk size
        1, 0, // PCM
        1, 0, // mono
        0x80, 0x3e, 0, 0, // 16000 Hz
        0x00, 0x7d, 0, 0, // byte rate 32000
        2, 0, // block align
        16, 0, // bits per sample
        b'd', b'a', b't', b'a', 4, 0, 0, 0, // data size
        0x34, 0x12, // first sample
        0xfe, 0xff, // -2
    ];
    assert_eq!(wav, expected);
}

#[test]
fn samples_read_back_from_their_offsets() {
    let samples: Vec<i16> = vec![i16::MIN, -1, 0, 1, i16::MAX, 12345];
    let wav = pcm_to_wav(&samples, 44100);
    for (i, s) in samples.iter().enumerate() {
        let off = 44 + 2 * i;
        assert_eq!(i16::from_le_bytes([wav[off], wav[off + 1]]), *s);
    }
    let riff = u32::from_le_bytes([wav[4], wav[5], wav[6], wav[7]]) as usize;
    let data = u32::from_le_bytes([wav[40], wav[41], wav[42], wav[43]]) as usize;
    assert_eq!(riff, wav.len() - 8);
    assert_eq!(data, wav.len() - 44);
    assert_eq!(u32::from_le_bytes([wav[24], wav[25], wav[26], wav[27]]), 44100);
    assert_eq!(u32::from_le_bytes([wav[28], wav[29], wav[30], wav[31]]), 88200);
}

#[test]
fn largest_sample_rate_that_fits() {
    let rate = u32::MAX / 2;
    let wav = pcm_to_wav(&[7], rate);
    assert_eq!(u32::from_le_bytes([wav[28], wav[29], wav[30], wav[31]]), rate * 2);
    assert_eq!(wav.len(), 46);
}

#[test]
fn samples_are_encoded_independently_in_order() {
    let a: Vec<i16> = vec![1, -1, 300];
    let b: Vec<i16> = vec![i16::MIN, 42];
    let ab: Vec<i16> = a.iter().chain(b.iter()).copied().collect();
    let whole = pcm_to_wav(&ab, 16000);
    let mut parts = pcm_to_wav(&a, 16000)[44..].to_vec();
    parts.extend_from_slice(&pcm_to_wav(&b, 16000)[44..]);
    assert_eq!(whole[44..].to_vec(), parts);
}
