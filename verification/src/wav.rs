//! WAV container encoding: a fixed mono, 16 kHz, 16-bit PCM header
//! followed by the samples in little-endian order.

use vstd::prelude::*;
use vstd::arithmetic::div_mod::{lemma_fundamental_div_mod, lemma_mod_bound, lemma_div_denominator};

verus! {

/// Size of the WAV header, in bytes.
pub const WAV_HEADER_LEN: usize = 44;

/// Low byte of a non-negative value.
pub open spec fn byte_of(x: int) -> u8 {
    (x % 256) as u8
}

/// A 16-bit value as two little-endian bytes.
pub open spec fn le16(x: int) -> Seq<u8> {
    seq![byte_of(x), byte_of(x / 256)]
}

/// A 32-bit value as four little-endian bytes.
pub open spec fn le32(x: int) -> Seq<u8> {
    seq![byte_of(x), byte_of(x / 256), byte_of(x / 65536), byte_of(x / 16777216)]
}

/// The unsigned 16-bit pattern of a PCM sample (two's complement).
pub open spec fn sample_pattern(x: i16) -> int {
    if x >= 0 {
        x as int
    } else {
        x as int + 65536
    }
}

/// The PCM payload: each sample as two little-endian bytes.
pub open spec fn pcm_bytes(s: Seq<i16>) -> Seq<u8>
    decreases s.len(),
{
    if s.len() == 0 {
        Seq::empty()
    } else {
        pcm_bytes(s.drop_last()) + le16(sample_pattern(s.last()))
    }
}

/// The 44-byte WAV header for a mono 16 kHz 16-bit stream carrying
/// `data_len` bytes of PCM data: the RIFF chunk, the `fmt ` chunk
/// (PCM, 1 channel, 16000 Hz, 32000 bytes/s, block align 2, 16 bits)
/// and the `data` chunk header.
pub open spec fn wav_header(data_len: int) -> Seq<u8> {
    seq![82u8, 73u8, 70u8, 70u8] + le32(36 + data_len) + seq![87u8, 65u8, 86u8, 69u8]
        + seq![102u8, 109u8, 116u8, 32u8] + le32(16) + le16(1) + le16(1) + le32(16000) + le32(
        32000,
    ) + le16(2) + le16(16) + seq![100u8, 97u8, 116u8, 97u8] + le32(data_len)
}

/// The complete WAV image of a sample buffer.
pub open spec fn wav_bytes(s: Seq<i16>) -> Seq<u8> {
    wav_header(2 * s.len() as int) + pcm_bytes(s)
}

proof fn lemma_pcm_bytes_push(s: Seq<i16>, x: i16)
    ensures
        pcm_bytes(s.push(x)) == pcm_bytes(s) + le16(sample_pattern(x)),
{
    assert(s.push(x).drop_last() =~= s);
}

proof fn lemma_pcm_bytes_len(s: Seq<i16>)
    ensures
        pcm_bytes(s).len() == 2 * s.len(),
    decreases s.len(),
{
    if s.len() > 0 {
        lemma_pcm_bytes_len(s.drop_last());
    }
}

/// Appends a 16-bit value in little-endian order.
fn push_le16(out: &mut Vec<u8>, x: u16)
    ensures
        final(out)@ == old(out)@ + le16(x as int),
{
    out.push((x % 256) as u8);
    out.push(((x / 256) % 256) as u8);
    proof {
        assert(out@ =~= old(out)@ + le16(x as int));
    }
}

/// Appends a 32-bit value in little-endian order.
fn push_le32(out: &mut Vec<u8>, x: u32)
    ensures
        final(out)@ == old(out)@ + le32(x as int),
{
    out.push((x % 256) as u8);
    out.push(((x / 256) % 256) as u8);
    out.push(((x / 65536) % 256) as u8);
    out.push(((x / 16777216) % 256) as u8);
    proof {
        assert(out@ =~= old(out)@ + le32(x as int));
    }
}

/// Appends one PCM sample as two little-endian bytes of its two's
/// complement pattern.
fn push_sample(out: &mut Vec<u8>, x: i16)
    ensures
        final(out)@ == old(out)@ + le16(sample_pattern(x)),
{
    let u: u32 = if x >= 0 {
        x as u32
    } else {
        (x as i32 + 65536) as u32
    };
    proof {
        assert(u as int == sample_pattern(x));
    }
    out.push((u % 256) as u8);
    out.push(((u / 256) % 256) as u8);
    proof {
        assert(out@ =~= old(out)@ + le16(sample_pattern(x)));
    }
}

/// What a reader makes of two little-endian bytes.
pub open spec fn le16_val(b: Seq<u8>, i: int) -> int {
    b[i] + 256 * b[i + 1]
}

/// What a reader makes of four little-endian bytes.
pub open spec fn le32_val(b: Seq<u8>, i: int) -> int {
    b[i] + 256 * b[i + 1] + 65536 * b[i + 2] + 16777216 * b[i + 3]
}

/// The sample a reader makes of a 16-bit pattern.
pub open spec fn pattern_sample(p: int) -> i16 {
    if p < 32768 {
        p as i16
    } else {
        (p - 65536) as i16
    }
}

/// The sample a reader decodes at index `i` of a WAV image.
pub open spec fn decoded_sample(b: Seq<u8>, i: int) -> i16 {
    pattern_sample(le16_val(b, WAV_HEADER_LEN + 2 * i))
}

proof fn lemma_le16_val(x: int)
    requires
        0 <= x < 65536,
    ensures
        le16(x).len() == 2,
        le16_val(le16(x), 0) == x,
{
    lemma_fundamental_div_mod(x, 256);
    lemma_mod_bound(x, 256);
    lemma_fundamental_div_mod(x / 256, 256);
    lemma_mod_bound(x / 256, 256);
}

proof fn lemma_le32_val(x: int)
    requires
        0 <= x < 4294967296,
    ensures
        le32(x).len() == 4,
        le32_val(le32(x), 0) == x,
{
    lemma_fundamental_div_mod(x, 256);
    lemma_mod_bound(x, 256);
    lemma_fundamental_div_mod(x / 256, 256);
    lemma_mod_bound(x / 256, 256);
    lemma_fundamental_div_mod(x / 65536, 256);
    lemma_mod_bound(x / 65536, 256);
    lemma_fundamental_div_mod(x / 16777216, 256);
    lemma_mod_bound(x / 16777216, 256);
    lemma_div_denominator(x, 256, 256);
    lemma_div_denominator(x, 65536, 256);
    assert(x / 256 / 256 == x / 65536);
    assert(x / 65536 / 256 == x / 16777216);
}

proof fn lemma_pattern_sample(x: i16)
    ensures
        0 <= sample_pattern(x) < 65536,
        pattern_sample(sample_pattern(x)) == x,
{
}

proof fn lemma_pcm_bytes_index(s: Seq<i16>, i: int)
    requires
        0 <= i < s.len(),
    ensures
        pcm_bytes(s)[2 * i] == byte_of(sample_pattern(s[i])),
        pcm_bytes(s)[2 * i + 1] == byte_of(sample_pattern(s[i]) / 256),
    decreases s.len(),
{
    lemma_pcm_bytes_len(s);
    lemma_pcm_bytes_len(s.drop_last());
    if i == s.len() - 1 {
        assert(pcm_bytes(s) == pcm_bytes(s.drop_last()) + le16(sample_pattern(s.last())));
        assert(pcm_bytes(s)[2 * i] == le16(sample_pattern(s[i]))[0]);
        assert(pcm_bytes(s)[2 * i + 1] == le16(sample_pattern(s[i]))[1]);
    } else {
        lemma_pcm_bytes_index(s.drop_last(), i);
        assert(s.drop_last()[i] == s[i]);
        assert(pcm_bytes(s)[2 * i] == pcm_bytes(s.drop_last())[2 * i]);
        assert(pcm_bytes(s)[2 * i + 1] == pcm_bytes(s.drop_last())[2 * i + 1]);
    }
}

/// A conformant reader recovers the clip from its WAV image: the
/// `data` chunk length field says exactly two bytes per sample — and
/// with it the sample count and duration — and each decoded sample is
/// the one encoded.
pub proof fn lemma_wav_round_trip(s: Seq<i16>)
    requires
        2 * s.len() + WAV_HEADER_LEN <= u32::MAX,
    ensures
        wav_bytes(s).len() == WAV_HEADER_LEN + 2 * s.len(),
        le32_val(wav_bytes(s), 40) == 2 * s.len(),
        forall|i: int| 0 <= i < s.len() ==> decoded_sample(wav_bytes(s), i) == s[i],
{
    let b = wav_bytes(s);
    let data_len = 2 * s.len() as int;
    lemma_pcm_bytes_len(s);
    lemma_le32_val(36 + data_len);
    lemma_le32_val(16);
    lemma_le16_val(1);
    lemma_le32_val(16000);
    lemma_le32_val(32000);
    lemma_le16_val(2);
    lemma_le16_val(16);
    lemma_le32_val(data_len);
    assert(wav_header(data_len).len() == WAV_HEADER_LEN);
    assert(b.len() == WAV_HEADER_LEN + 2 * s.len());
    assert forall|k: int| 0 <= k < 4 implies b[40 + k] == le32(data_len)[k] by {
        assert(wav_header(data_len)[40 + k] == le32(data_len)[k]);
    }
    assert(le32_val(b, 40) == le32_val(le32(data_len), 0));
    assert forall|i: int| 0 <= i < s.len() implies decoded_sample(b, i) == s[i] by {
        lemma_pcm_bytes_index(s, i);
        lemma_pattern_sample(s[i]);
        assert(b[WAV_HEADER_LEN + 2 * i] == pcm_bytes(s)[2 * i]);
        assert(b[WAV_HEADER_LEN + 2 * i + 1] == pcm_bytes(s)[2 * i + 1]);
        lemma_le16_val(sample_pattern(s[i]));
        assert(le16_val(b, WAV_HEADER_LEN + 2 * i) == le16_val(
            le16(sample_pattern(s[i])),
            0,
        ));
    }
}

/// Encodes a mono 16 kHz sample buffer as a complete WAV file image.
pub fn encode_wav(samples: &Vec<i16>) -> (r: Vec<u8>)
    requires
        2 * samples@.len() + WAV_HEADER_LEN <= u32::MAX,
    ensures
        r@ == wav_bytes(samples@),
        r@.len() == 2 * samples@.len() + WAV_HEADER_LEN,
{
    let data_len: u32 = 2 * (samples.len() as u32);
    let mut out: Vec<u8> = Vec::new();
    out.push(82);
    out.push(73);
    out.push(70);
    out.push(70);
    push_le32(&mut out, 36 + data_len);
    out.push(87);
    out.push(65);
    out.push(86);
    out.push(69);
    out.push(102);
    out.push(109);
    out.push(116);
    out.push(32);
    push_le32(&mut out, 16);
    push_le16(&mut out, 1);
    push_le16(&mut out, 1);
    push_le32(&mut out, 16000);
    push_le32(&mut out, 32000);
    push_le16(&mut out, 2);
    push_le16(&mut out, 16);
    out.push(100);
    out.push(97);
    out.push(116);
    out.push(97);
    push_le32(&mut out, data_len);
    proof {
        assert(out@ =~= wav_header(data_len as int));
    }
    let mut j: usize = 0;
    let n = samples.len();
    while j < n
        invariant
            0 <= j <= n,
            n == samples@.len(),
            out@ == wav_header(2 * samples@.len() as int) + pcm_bytes(
                samples@.subrange(0, j as int),
            ),
        decreases n - j,
    {
        proof {
            assert(samples@.subrange(0, j + 1) =~= samples@.subrange(0, j as int).push(
                samples@[j as int],
            ));
            lemma_pcm_bytes_push(samples@.subrange(0, j as int), samples@[j as int]);
        }
        push_sample(&mut out, samples[j]);
        proof {
            assert(out@ =~= wav_header(2 * samples@.len() as int) + pcm_bytes(
                samples@.subrange(0, j + 1),
            ));
        }
        j = j + 1;
    }
    proof {
        assert(samples@.subrange(0, n as int) =~= samples@);
        lemma_pcm_bytes_len(samples@);
    }
    out
}

} // verus!
