use fluxvoice::wav::encode_wav;

fn u16_at(bytes: &[u8], i: usize) -> u16 {
    bytes[i] as u16 | ((bytes[i + 1] as u16) << 8)
}

fn u32_at(bytes: &[u8], i: usize) -> u32 {
    bytes[i] as u32 | ((bytes[i + 1] as u32) << 8) | ((bytes[i + 2] as u32) << 16)
        | ((bytes[i + 3] as u32) << 24)
}

#[test]
fn wav_header_fields() {
    let samples: Vec<i16> = vec![0, 1, -1, 32767, -32768];
    let bytes = encode_wav(&samples);
    assert_eq!(bytes.len(), 44 + 2 * samples.len());
    assert_eq!(&bytes[0..4], b"RIFF");
    assert_eq!(u32_at(&bytes, 4), 36 + 10);
    assert_eq!(&bytes[8..12], b"WAVE");
    assert_eq!(&bytes[12..16], b"fmt ");
    assert_eq!(u32_at(&bytes, 16), 16);
    assert_eq!(u16_at(&bytes, 20), 1);
    assert_eq!(u16_at(&bytes, 22), 1);
    assert_eq!(u32_at(&bytes, 24), 16000);
    assert_eq!(u32_at(&bytes, 28), 32000);
    assert_eq!(u16_at(&bytes, 32), 2);
    assert_eq!(u16_at(&bytes, 34), 16);
    assert_eq!(&bytes[36..40], b"data");
    assert_eq!(u32_at(&bytes, 40), 10);
}

#[test]
fn wav_samples_are_little_endian_twos_complement() {
    let samples: Vec<i16> = vec![0, 1, -1, 258, -2];
    let bytes = encode_wav(&samples);
    let data = &bytes[44..];
    assert_eq!(data, &[0, 0, 1, 0, 0xff, 0xff, 2, 1, 0xfe, 0xff]);
}

#[test]
fn wav_round_trip_recovers_samples_and_duration() {
    let samples: Vec<i16> = (0..16000).map(|i| ((i * 7) % 20000 - 10000) as i16).collect();
    let bytes = encode_wav(&samples);

    // Parse the container back as a conformant reader would.
    assert_eq!(&bytes[0..4], b"RIFF");
    let sample_rate = u32_at(&bytes, 24);
    let bits = u16_at(&bytes, 34);
    let data_len = u32_at(&bytes, 40) as usize;
    assert_eq!(data_len, bytes.len() - 44);
    let recovered: Vec<i16> = bytes[44..]
        .chunks(2)
        .map(|c| i16::from_le_bytes([c[0], c[1]]))
        .collect();
    assert_eq!(recovered, samples);
    let duration_ms = (data_len / (bits as usize / 8)) * 1000 / sample_rate as usize;
    assert_eq!(duration_ms, 1000);
}

#[test]
fn wav_of_empty_buffer_is_header_only() {
    let samples: Vec<i16> = Vec::new();
    let bytes = encode_wav(&samples);
    assert_eq!(bytes.len(), 44);
    assert_eq!(u32_at(&bytes, 40), 0);
}
