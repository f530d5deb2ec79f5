//! Linear-PCM container codec: encoding of 16-bit samples into a container
//! byte stream, and recovery of the payload duration from a container header.
//!
//! The container layout is the classic 44-byte header (outer marker, format
//! chunk, payload chunk header) followed by the little-endian sample payload.
//! Durations are kept as an exact pair of frame count and sample rate, so no
//! floating-point arithmetic is needed anywhere in the library.

use vstd::prelude::*;

verus! {

/// Little-endian byte pair of a 16-bit value.
pub open spec fn u16_le(x: u16) -> Seq<u8> {
    seq![(x % 256) as u8, ((x / 256) % 256) as u8]
}

/// Little-endian byte quadruple of a 32-bit value.
pub open spec fn u32_le(x: u32) -> Seq<u8> {
    seq![
        (x % 256) as u8,
        ((x / 256) % 256) as u8,
        ((x / 65536) % 256) as u8,
        ((x / 16777216) % 256) as u8,
    ]
}

/// The 16-bit value read back from two little-endian bytes.
pub open spec fn u16_from_le(b0: u8, b1: u8) -> u16 {
    (b0 + 256 * b1) as u16
}

/// The 32-bit value read back from four little-endian bytes.
pub open spec fn u32_from_le(b0: u8, b1: u8, b2: u8, b3: u8) -> u32 {
    (b0 + 256 * b1 + 65536 * b2 + 16777216 * b3) as u32
}

pub proof fn lemma_u16_le_round_trip(x: u16)
    ensures
        u16_from_le(u16_le(x)[0], u16_le(x)[1]) == x,
{
    assert(x % 256 + 256 * ((x / 256) % 256) == x) by (bit_vector);
}

pub proof fn lemma_u32_le_round_trip(x: u32)
    ensures
        u32_from_le(u32_le(x)[0], u32_le(x)[1], u32_le(x)[2], u32_le(x)[3]) == x,
{
    assert(x % 256 + 256 * ((x / 256) % 256) + 65536 * ((x / 65536) % 256) + 16777216 * ((x
        / 16777216) % 256) == x) by (bit_vector);
}

/// The two's-complement 16-bit pattern of a signed sample.
pub open spec fn sample_bits(s: i16) -> u16 {
    if s >= 0 {
        s as u16
    } else {
        (s + 65536) as u16
    }
}

/// Sample payload: each 16-bit sample contributes its two little-endian bytes,
/// in sample order.
pub open spec fn payload_bytes(samples: Seq<i16>) -> Seq<u8>
    decreases samples.len(),
{
    if samples.len() == 0 {
        Seq::<u8>::empty()
    } else {
        payload_bytes(samples.drop_last()) + u16_le(sample_bits(samples.last()))
    }
}

pub proof fn lemma_payload_bytes_len(samples: Seq<i16>)
    ensures
        payload_bytes(samples).len() == 2 * samples.len(),
    decreases samples.len(),
{
    if samples.len() > 0 {
        lemma_payload_bytes_len(samples.drop_last());
    }
}

/// The 44-byte container header for a payload of `2 * sample_count` bytes:
/// outer marker and total size, the 16-byte format chunk (integer PCM, the
/// given channel count and rate, 16 bits per sample), then the payload chunk
/// marker and size.
pub open spec fn wav_header(sample_count: int, channels: u16, sample_rate: u32) -> Seq<u8> {
    let data_size = (2 * sample_count) as u32;
    let byte_rate = (sample_rate as int * channels as int * 2) as u32;
    let block_align = (channels as int * 2) as u16;
    seq![82u8, 73u8, 70u8, 70u8]  // "RIFF"
    + u32_le((36 + data_size) as u32) + seq![87u8, 65u8, 86u8, 69u8]  // "WAVE"
    + seq![102u8, 109u8, 116u8, 32u8]  // "fmt "
    + u32_le(16u32) + u16_le(1u16) + u16_le(channels) + u32_le(sample_rate) + u32_le(byte_rate)
        + u16_le(block_align) + u16_le(16u16) + seq![100u8, 97u8, 116u8, 97u8]  // "data"
    + u32_le(data_size)
}

/// The complete container for the given samples: header then payload.
pub open spec fn wav_bytes(samples: Seq<i16>, channels: u16, sample_rate: u32) -> Seq<u8> {
    wav_header(samples.len() as int, channels, sample_rate) + payload_bytes(samples)
}

/// Append the two little-endian bytes of a 16-bit value.
fn push_u16_le(out: &mut Vec<u8>, x: u16)
    ensures
        final(out)@ == old(out)@ + u16_le(x),
{
    out.push((x % 256) as u8);
    out.push(((x / 256) % 256) as u8);
    assert(out@ =~= old(out)@ + u16_le(x));
}

/// Append the four little-endian bytes of a 32-bit value.
fn push_u32_le(out: &mut Vec<u8>, x: u32)
    ensures
        final(out)@ == old(out)@ + u32_le(x),
{
    out.push((x % 256) as u8);
    out.push(((x / 256) % 256) as u8);
    out.push(((x / 65536) % 256) as u8);
    out.push(((x / 16777216) % 256) as u8);
    assert(out@ =~= old(out)@ + u32_le(x));
}

/// Largest sample count the container's 32-bit size fields can describe.
pub open spec fn max_encodable_samples() -> int {
    (0xffff_ffffu32 - 36) / 2
}

/// Two's-complement bit pattern of a sample, executably.
fn sample_bits_exec(s: i16) -> (b: u16)
    ensures
        b == sample_bits(s),
{
    if s >= 0 {
        s as u16
    } else {
        (s as i32 + 65536) as u16
    }
}

/// Encode 16-bit samples into a complete linear-PCM container.
///
/// Deterministic: the result is exactly `wav_bytes` of the inputs, so equal
/// inputs give byte-identical containers. An empty sample sequence yields the
/// valid 44-byte empty-payload container.
#[verifier::rlimit(60)]
pub fn encode_wav(samples: &Vec<i16>, channels: u16, sample_rate: u32) -> (out: Vec<u8>)
    requires
        samples@.len() <= max_encodable_samples(),
        channels as int * 2 <= u16::MAX,
        sample_rate as int * channels as int * 2 <= u32::MAX,
    ensures
        out@ == wav_bytes(samples@, channels, sample_rate),
        out@.len() == 44 + 2 * samples@.len(),
{
    let data_size: u32 = 2 * (samples.len() as u32);
    let byte_rate: u32 = sample_rate * (channels as u32) * 2;
    let block_align: u16 = channels * 2;
    let mut out: Vec<u8> = Vec::new();
    out.push(82u8);
    out.push(73u8);
    out.push(70u8);
    out.push(70u8);
    push_u32_le(&mut out, 36 + data_size);
    out.push(87u8);
    out.push(65u8);
    out.push(86u8);
    out.push(69u8);
    out.push(102u8);
    out.push(109u8);
    out.push(116u8);
    out.push(32u8);
    push_u32_le(&mut out, 16);
    push_u16_le(&mut out, 1);
    push_u16_le(&mut out, channels);
    push_u32_le(&mut out, sample_rate);
    push_u32_le(&mut out, byte_rate);
    push_u16_le(&mut out, block_align);
    push_u16_le(&mut out, 16);
    out.push(100u8);
    out.push(97u8);
    out.push(116u8);
    out.push(97u8);
    push_u32_le(&mut out, data_size);
    assert(out@ =~= wav_header(samples@.len() as int, channels, sample_rate));
    let ghost header = out@;
    let mut i: usize = 0;
    while i < samples.len()
        invariant
            i <= samples@.len(),
            samples@.len() <= max_encodable_samples(),
            out@ == header + payload_bytes(samples@.take(i as int)),
            header == wav_header(samples@.len() as int, channels, sample_rate),
        decreases samples@.len() - i,
    {
        let bits = sample_bits_exec(samples[i]);
        push_u16_le(&mut out, bits);
        proof {
            assert(samples@.take(i as int + 1).drop_last() =~= samples@.take(i as int));
            assert(samples@.take(i as int + 1).last() == samples@[i as int]);
            assert(out@ =~= header + payload_bytes(samples@.take(i as int + 1)));
        }
        i = i + 1;
    }
    proof {
        assert(samples@.take(samples@.len() as int) =~= samples@);
        lemma_payload_bytes_len(samples@);
    }
    out
}

/// Quantized sample clamped into the symmetric 16-bit range.
///
/// The argument is a sample already scaled to units of 1/32767 of full scale;
/// anything outside the representable range is clamped, never rejected, so the
/// result always lies in `[-32767, 32767]`.
pub fn clamp_scaled_sample(scaled: i64) -> (s: i16)
    ensures
        -32767 <= s <= 32767,
        s == clamp_scaled(scaled),
{
    if scaled < -32767 {
        -32767
    } else if scaled > 32767 {
        32767
    } else {
        scaled as i16
    }
}

/// Clamp of an already-scaled sample into `[-32767, 32767]`.
pub open spec fn clamp_scaled(scaled: i64) -> i16 {
    if scaled < -32767 {
        (-32767) as i16
    } else if scaled > 32767 {
        32767 as i16
    } else {
        scaled as i16
    }
}

/// Clamping: whatever value quantization produced — in particular one from
/// an input above full scale or below negative full scale — the stored
/// sample never leaves `[-32767, 32767]`.
pub proof fn lemma_clamp_never_leaves_range(scaled: i64)
    ensures
        -32767 <= clamp_scaled(scaled) <= 32767,
{
}

/// Exact payload duration of a container: a frame count over a sample rate.
/// Kept as a pair so the duration needs no floating-point value.
#[derive(Clone, Copy, Debug, PartialEq, Eq, Structural)]
pub struct AudioDuration {
    /// Number of sample frames in the payload.
    pub frames: u32,
    /// Frames per second.
    pub rate: u32,
}

impl AudioDuration {
    /// A duration is meaningful only for a positive sample rate.
    pub open spec fn wf(self) -> bool {
        self.rate >= 1
    }

    /// The duration in whole milliseconds, rounded down.
    pub open spec fn spec_millis(self) -> int {
        self.frames as int * 1000 / self.rate as int
    }

    /// The duration in whole milliseconds, rounded down.
    pub fn millis(&self) -> (m: u64)
        requires
            self.wf(),
        ensures
            m == self.spec_millis(),
    {
        (self.frames as u64) * 1000 / (self.rate as u64)
    }
}

/// Scan the chunk list starting at `pos`: each chunk is a 4-byte tag and a
/// 4-byte little-endian size, followed by its payload rounded up to an even
/// byte boundary. Yields the declared size of the first chunk tagged as the
/// sample payload, or nothing if the buffer ends first.
pub open spec fn find_data_chunk(b: Seq<u8>, pos: int) -> Option<u32>
    decreases (if pos <= b.len() { b.len() - pos } else { 0 }),
{
    if 0 <= pos && pos + 8 <= b.len() {
        let size = u32_from_le(b[pos + 4], b[pos + 5], b[pos + 6], b[pos + 7]);
        if b[pos] == 100 && b[pos + 1] == 97 && b[pos + 2] == 116 && b[pos + 3] == 97 {
            Some(size)
        } else {
            let unaligned = pos + 8 + size;
            let next = if unaligned % 2 == 1 {
                unaligned + 1
            } else {
                unaligned
            };
            find_data_chunk(b, next)
        }
    } else {
        None
    }
}

/// Payload duration described by a container's header, if the buffer holds a
/// well-formed header: the two fixed four-byte markers must be present, the
/// rate, channel count and sample width must be positive, and a chunk tagged
/// as the sample payload must be found by the chunk scan. The duration is the
/// declared payload size divided by the frame width, over the declared rate.
pub open spec fn wav_duration_of(b: Seq<u8>) -> Option<AudioDuration> {
    if b.len() < 44 {
        None
    } else if !(b[0] == 82 && b[1] == 73 && b[2] == 70 && b[3] == 70 && b[8] == 87 && b[9] == 65
        && b[10] == 86 && b[11] == 69) {
        None
    } else {
        let rate = u32_from_le(b[24], b[25], b[26], b[27]);
        let channels = u16_from_le(b[22], b[23]);
        let bytes_per_sample = u16_from_le(b[34], b[35]) as int / 8;
        if rate == 0 || channels == 0 || bytes_per_sample == 0 {
            None
        } else {
            match find_data_chunk(b, 12) {
                Some(size) => Some(
                    AudioDuration {
                        frames: (size as int / (channels as int * bytes_per_sample)) as u32,
                        rate,
                    },
                ),
                None => None,
            }
        }
    }
}

/// The 32-bit little-endian value at a byte offset.
fn read_u32_at(b: &[u8], off: usize) -> (x: u32)
    requires
        off + 4 <= b@.len(),
    ensures
        x == u32_from_le(b@[off as int], b@[off as int + 1], b@[off as int + 2], b@[off as int + 3]),
{
    (b[off] as u32) + 256 * (b[off + 1] as u32) + 65536 * (b[off + 2] as u32) + 16777216 * (b[off
        + 3] as u32)
}

/// The 16-bit little-endian value at a byte offset.
fn read_u16_at(b: &[u8], off: usize) -> (x: u16)
    requires
        off + 2 <= b@.len(),
    ensures
        x == u16_from_le(b@[off as int], b@[off as int + 1]),
{
    (b[off] as u16) + 256 * (b[off + 1] as u16)
}

/// Read the payload duration out of a container header.
///
/// Yields nothing — a defined "unknown" result, not an error — when the
/// buffer is shorter than the fixed header, a marker does not match, a
/// declared quantity is zero, or no chunk is tagged as the sample payload.
pub fn estimate_wav_duration(wav_data: &[u8]) -> (d: Option<AudioDuration>)
    ensures
        d == wav_duration_of(wav_data@),
        d is Some ==> d.unwrap().wf(),
{
    if wav_data.len() < 44 {
        return None;
    }
    if !(wav_data[0] == 82 && wav_data[1] == 73 && wav_data[2] == 70 && wav_data[3] == 70
        && wav_data[8] == 87 && wav_data[9] == 65 && wav_data[10] == 86 && wav_data[11] == 69) {
        return None;
    }
    let rate = read_u32_at(wav_data, 24);
    let channels = read_u16_at(wav_data, 22);
    let bits_per_sample = read_u16_at(wav_data, 34);
    let bytes_per_sample = bits_per_sample / 8;
    if rate == 0 || channels == 0 || bytes_per_sample == 0 {
        return None;
    }
    let len = wav_data.len();
    let mut pos: usize = 12;
    while pos <= len - 8
        invariant
            12 <= pos <= len,
            len == wav_data@.len(),
            44 <= len,
            wav_data@[0] == 82 && wav_data@[1] == 73 && wav_data@[2] == 70 && wav_data@[3] == 70,
            wav_data@[8] == 87 && wav_data@[9] == 65 && wav_data@[10] == 86 && wav_data@[11] == 69,
            find_data_chunk(wav_data@, 12) == find_data_chunk(wav_data@, pos as int),
            rate == u32_from_le(wav_data@[24], wav_data@[25], wav_data@[26], wav_data@[27]),
            channels == u16_from_le(wav_data@[22], wav_data@[23]),
            bits_per_sample == u16_from_le(wav_data@[34], wav_data@[35]),
            bytes_per_sample == bits_per_sample / 8,
            rate >= 1,
            channels >= 1,
            bytes_per_sample >= 1,
        decreases len - pos,
    {
        let size = read_u32_at(wav_data, pos + 4);
        if wav_data[pos] == 100 && wav_data[pos + 1] == 97 && wav_data[pos + 2] == 116
            && wav_data[pos + 3] == 97 {
            proof {
                assert(1 <= channels as int * bytes_per_sample as int <= 65535 * 8191) by (
                nonlinear_arith)
                    requires
                        1 <= channels as int <= 65535,
                        1 <= bytes_per_sample as int <= 8191,
                ;
            }
            let divisor: u32 = (channels as u32) * (bytes_per_sample as u32);
            let frames: u32 = size / divisor;
            proof {
                assert(find_data_chunk(wav_data@, pos as int) == Some(size));
            }
            return Some(AudioDuration { frames, rate });
        }
        let unaligned: u128 = pos as u128 + 8 + size as u128;
        let next: u128 = if unaligned % 2 == 1 {
            unaligned + 1
        } else {
            unaligned
        };
        proof {
            assert(find_data_chunk(wav_data@, pos as int) == find_data_chunk(
                wav_data@,
                next as int,
            ));
        }
        if next + 8 > len as u128 {
            proof {
                assert(find_data_chunk(wav_data@, next as int) is None);
            }
            return None;
        }
        pos = next as usize;
    }
    proof {
        assert(find_data_chunk(wav_data@, pos as int) is None);
    }
    None
}

/// Round trip of the codec: reading the duration back out of an encoded
/// container always succeeds and yields exactly the encoded frame count over
/// the encoded rate. The preconditions are the encoder's size limits plus
/// positive rate and channel count, without which the payload describes no
/// duration.
pub proof fn lemma_encode_decode_round_trip(samples: Seq<i16>, channels: u16, sample_rate: u32)
    requires
        samples.len() <= max_encodable_samples(),
        1 <= channels,
        channels as int * 2 <= u16::MAX,
        1 <= sample_rate,
        sample_rate as int * channels as int * 2 <= u32::MAX,
    ensures
        wav_duration_of(wav_bytes(samples, channels, sample_rate)) == Some(
            AudioDuration { frames: (samples.len() as int / channels as int) as u32, rate: sample_rate },
        ),
{
    let b = wav_bytes(samples, channels, sample_rate);
    let h = wav_header(samples.len() as int, channels, sample_rate);
    let data_size = (2 * samples.len()) as u32;
    lemma_payload_bytes_len(samples);
    assert(b.len() == 44 + 2 * samples.len());
    assert(forall|i: int| 0 <= i < 44 ==> b[i] == h[i]);
    // Fixed header bytes.
    assert(b[0] == 82 && b[1] == 73 && b[2] == 70 && b[3] == 70);
    assert(b[8] == 87 && b[9] == 65 && b[10] == 86 && b[11] == 69);
    // The declared rate, channel count and sample width read back exactly.
    assert(b[24] == u32_le(sample_rate)[0] && b[25] == u32_le(sample_rate)[1] && b[26] == u32_le(
        sample_rate,
    )[2] && b[27] == u32_le(sample_rate)[3]);
    lemma_u32_le_round_trip(sample_rate);
    assert(u32_from_le(b[24], b[25], b[26], b[27]) == sample_rate);
    assert(b[22] == u16_le(channels)[0] && b[23] == u16_le(channels)[1]);
    lemma_u16_le_round_trip(channels);
    assert(u16_from_le(b[22], b[23]) == channels);
    assert(b[34] == u16_le(16)[0] && b[35] == u16_le(16)[1]);
    lemma_u16_le_round_trip(16);
    assert(u16_from_le(b[34], b[35]) == 16);
    // First scanned chunk is the format chunk: not the payload, size 16.
    assert(b[12] == 102 && b[13] == 109 && b[14] == 116 && b[15] == 32);
    assert(b[16] == u32_le(16)[0] && b[17] == u32_le(16)[1] && b[18] == u32_le(16)[2] && b[19]
        == u32_le(16)[3]);
    lemma_u32_le_round_trip(16);
    assert(u32_from_le(b[16], b[17], b[18], b[19]) == 16);
    // The scan skips it and lands on the payload chunk at offset 36.
    assert(b[36] == 100 && b[37] == 97 && b[38] == 116 && b[39] == 97);
    assert(b[40] == u32_le(data_size)[0] && b[41] == u32_le(data_size)[1] && b[42] == u32_le(
        data_size,
    )[2] && b[43] == u32_le(data_size)[3]);
    lemma_u32_le_round_trip(data_size);
    assert(u32_from_le(b[40], b[41], b[42], b[43]) == data_size);
    assert(find_data_chunk(b, 12) == find_data_chunk(b, 36));
    assert(find_data_chunk(b, 36) == Some(data_size));
    // The frame count is the payload size over the frame width.
    assert(data_size as int / (channels as int * 2) == samples.len() as int / channels as int) by {
        vstd::arithmetic::div_mod::lemma_div_denominator(
            2 * samples.len() as int,
            2,
            channels as int,
        );
        vstd::arithmetic::div_mod::lemma_div_multiples_vanish(samples.len() as int, 2);
    };
}

} // verus!
