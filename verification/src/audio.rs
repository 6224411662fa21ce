//! Building of a monophonic 16-bit PCM WAV byte stream from samples.
//! Synthesis of the samples themselves and audio output belong to the
//! caller.

use vstd::prelude::*;

use vstd::bytes::{spec_u16_to_le_bytes, spec_u32_to_le_bytes, u16_to_le_bytes, u32_to_le_bytes};

verus! {

/// The PCM payload: each sample as two little-endian bytes, in order.
pub open spec fn spec_pcm_bytes(samples: Seq<i16>) -> Seq<u8>
    decreases samples.len(),
{
    if samples.len() == 0 {
        Seq::<u8>::empty()
    } else {
        spec_pcm_bytes(samples.drop_last()) + spec_u16_to_le_bytes(samples.last() as u16)
    }
}

/// The 44-byte RIFF/WAVE header of a mono 16-bit PCM stream: the RIFF tag
/// and chunk size, the WAVE tag, the format chunk (PCM, one channel, the
/// sample rate and the derived byte rate and block alignment), and the data
/// tag with the payload size.
pub open spec fn spec_wav_header(riff_size: u32, sample_rate: u32, byte_rate: u32, data_size: u32) -> Seq<
    u8,
> {
    seq![0x52u8, 0x49u8, 0x46u8, 0x46u8] + spec_u32_to_le_bytes(riff_size) + seq![
        0x57u8,
        0x41u8,
        0x56u8,
        0x45u8,
    ] + seq![0x66u8, 0x6du8, 0x74u8, 0x20u8] + spec_u32_to_le_bytes(16) + spec_u16_to_le_bytes(1)
        + spec_u16_to_le_bytes(1) + spec_u32_to_le_bytes(sample_rate) + spec_u32_to_le_bytes(
        byte_rate,
    ) + spec_u16_to_le_bytes(2) + spec_u16_to_le_bytes(16) + seq![0x64u8, 0x61u8, 0x74u8, 0x61u8]
        + spec_u32_to_le_bytes(data_size)
}

/// A whole WAV byte stream: the header for the given samples, then their
/// PCM bytes.
pub open spec fn spec_wav_bytes(samples: Seq<i16>, sample_rate: u32) -> Seq<u8> {
    spec_wav_header(
        (36 + 2 * samples.len()) as u32,
        sample_rate,
        (2 * sample_rate) as u32,
        (2 * samples.len()) as u32,
    ) + spec_pcm_bytes(samples)
}

/// Builds the WAV byte stream of a mono 16-bit PCM recording.
///
/// The bounds keep the chunk sizes and the byte rate inside `u32`, where
/// the format stores them.
pub fn create_wav_bytes(samples: &Vec<i16>, sample_rate: u32) -> (r: Vec<u8>)
    requires
        2 * samples@.len() + 36 <= u32::MAX,
        16 * sample_rate <= u32::MAX,
    ensures
        r@ == spec_wav_bytes(samples@, sample_rate),
{
    let num_samples = samples.len();
    let num_channels: u16 = 1;
    let bits_per_sample: u16 = 16;
    let byte_rate: u32 = sample_rate * (num_channels as u32) * (bits_per_sample as u32) / 8;
    let block_align: u16 = num_channels * bits_per_sample / 8;
    let data_size: u32 = (num_samples * 2) as u32;

    let mut bytes: Vec<u8> = Vec::new();

    // RIFF header
    bytes.push(0x52);
    bytes.push(0x49);
    bytes.push(0x46);
    bytes.push(0x46);
    bytes.append(&mut u32_to_le_bytes(36 + data_size));
    bytes.push(0x57);
    bytes.push(0x41);
    bytes.push(0x56);
    bytes.push(0x45);

    // format chunk
    bytes.push(0x66);
    bytes.push(0x6d);
    bytes.push(0x74);
    bytes.push(0x20);
    bytes.append(&mut u32_to_le_bytes(16));
    bytes.append(&mut u16_to_le_bytes(1));
    bytes.append(&mut u16_to_le_bytes(num_channels));
    bytes.append(&mut u32_to_le_bytes(sample_rate));
    bytes.append(&mut u32_to_le_bytes(byte_rate));
    bytes.append(&mut u16_to_le_bytes(block_align));
    bytes.append(&mut u16_to_le_bytes(bits_per_sample));

    // data chunk
    bytes.push(0x64);
    bytes.push(0x61);
    bytes.push(0x74);
    bytes.push(0x61);
    bytes.append(&mut u32_to_le_bytes(data_size));

    let ghost header = bytes@;
    proof {
        assert(header =~= spec_wav_header(
            (36 + 2 * samples@.len()) as u32,
            sample_rate,
            (2 * sample_rate) as u32,
            (2 * samples@.len()) as u32,
        ));
        assert(bytes@ =~= header + spec_pcm_bytes(samples@.subrange(0, 0)));
    }

    // PCM payload
    let mut i: usize = 0;
    while i < num_samples
        invariant
            i <= num_samples,
            num_samples == samples@.len(),
            bytes@ == header + spec_pcm_bytes(samples@.subrange(0, i as int)),
        decreases num_samples - i,
    {
        bytes.append(&mut u16_to_le_bytes(samples[i] as u16));
        proof {
            assert(samples@.subrange(0, i as int + 1).drop_last() =~= samples@.subrange(
                0,
                i as int,
            ));
            assert(samples@.subrange(0, i as int + 1).last() == samples@[i as int]);
        }
        i = i + 1;
    }
    assert(samples@.subrange(0, num_samples as int) =~= samples@);
    bytes
}

} // verus!
