//! Tests of the WAV byte-stream builder.

use pwe_karaoke::audio::create_wav_bytes;

#[test]
fn wav_header_and_payload_layout() {
    let samples: Vec<i16> = vec![0, 1, -1];
    let bytes = create_wav_bytes(&samples, 44_100);

    assert_eq!(bytes.len(), 44 + 6);
    assert_eq!(&bytes[0..4], b"RIFF");
    assert_eq!(&bytes[4..8], &(36u32 + 6).to_le_bytes());
    assert_eq!(&bytes[8..12], b"WAVE");
    assert_eq!(&bytes[12..16], b"fmt ");
    assert_eq!(&bytes[16..20], &16u32.to_le_bytes());
    assert_eq!(&bytes[20..22], &1u16.to_le_bytes()); // PCM
    assert_eq!(&bytes[22..24], &1u16.to_le_bytes()); // mono
    assert_eq!(&bytes[24..28], &44_100u32.to_le_bytes());
    assert_eq!(&bytes[28..32], &88_200u32.to_le_bytes()); // byte rate
    assert_eq!(&bytes[32..34], &2u16.to_le_bytes()); // block align
    assert_eq!(&bytes[34..36], &16u16.to_le_bytes()); // bits per sample
    assert_eq!(&bytes[36..40], b"data");
    assert_eq!(&bytes[40..44], &6u32.to_le_bytes());
    assert_eq!(&bytes[44..], &[0x00, 0x00, 0x01, 0x00, 0xff, 0xff]);
}

#[test]
fn wav_of_no_samples_is_header_only() {
    let bytes = create_wav_bytes(&Vec::new(), 8_000);
    assert_eq!(bytes.len(), 44);
    assert_eq!(&bytes[40..44], &0u32.to_le_bytes());
    assert_eq!(&bytes[28..32], &16_000u32.to_le_bytes());
}
