//! Encoding of mono 16-bit PCM audio as a WAV (RIFF) file.
use vstd::prelude::*;

verus! {

/// Number of audio channels written into the header (mono).
pub const NUM_CHANNELS: u16 = 1;

/// Bits per sample written into the header.
pub const BITS_PER_SAMPLE: u16 = 16;

/// Length in bytes of the header that precedes the sample data.
pub const WAV_HEADER_LEN: usize = 44;

/// The two little-endian bytes of `x`.
pub open spec fn le_u16(x: u16) -> Seq<u8> {
    seq![(x & 0xff) as u8, ((x >> 8) & 0xff) as u8]
}

/// The four little-endian bytes of `x`.
pub open spec fn le_u32(x: u32) -> Seq<u8> {
    seq![(x & 0xff) as u8, ((x >> 8) & 0xff) as u8, ((x >> 16) & 0xff) as u8, ((x >> 24) & 0xff) as u8]
}

/// The two little-endian bytes of a signed sample (two's complement).
pub open spec fn le_i16(x: i16) -> Seq<u8> {
    le_u16(x as u16)
}

/// The ASCII bytes of a four-character chunk tag.
pub open spec fn tag(a: u8, b: u8, c: u8, d: u8) -> Seq<u8> {
    seq![a, b, c, d]
}

/// `"RIFF"`
pub open spec fn riff_tag() -> Seq<u8> {
    tag(0x52, 0x49, 0x46, 0x46)
}

/// `"WAVE"`
pub open spec fn wave_tag() -> Seq<u8> {
    tag(0x57, 0x41, 0x56, 0x45)
}

/// `"fmt "`
pub open spec fn fmt_tag() -> Seq<u8> {
    tag(0x66, 0x6d, 0x74, 0x20)
}

/// `"data"`
pub open spec fn data_tag() -> Seq<u8> {
    tag(0x64, 0x61, 0x74, 0x61)
}

/// Size in bytes of the sample data of `num_samples` 16-bit samples.
pub open spec fn data_size(num_samples: nat) -> int {
    2 * num_samples as int
}

/// The inputs for which every header field fits its 32-bit slot.
pub open spec fn encodable(num_samples: nat, sample_rate: u32) -> bool {
    &&& sample_rate as int * 2 <= u32::MAX
    &&& 36 + data_size(num_samples) <= u32::MAX
    &&& WAV_HEADER_LEN + data_size(num_samples) <= usize::MAX
}

/// The 44-byte header of a mono 16-bit PCM WAV file.
pub open spec fn wav_header(num_samples: nat, sample_rate: u32) -> Seq<u8> {
    riff_tag()
        + le_u32((36 + data_size(num_samples)) as u32)
        + wave_tag()
        + fmt_tag()
        + le_u32(16)
        + le_u16(1)
        + le_u16(NUM_CHANNELS)
        + le_u32(sample_rate)
        + le_u32((sample_rate * 2) as u32)
        + le_u16(2)
        + le_u16(BITS_PER_SAMPLE)
        + data_tag()
        + le_u32(data_size(num_samples) as u32)
}

/// The sample data: each sample as two little-endian bytes, in order.
pub open spec fn pcm_bytes(samples: Seq<i16>) -> Seq<u8>
    decreases samples.len(),
{
    if samples.len() == 0 {
        seq![]
    } else {
        pcm_bytes(samples.drop_last()) + le_i16(samples.last())
    }
}

/// The whole WAV file for `samples` at `sample_rate`.
pub open spec fn wav_file(samples: Seq<i16>, sample_rate: u32) -> Seq<u8> {
    wav_header(samples.len(), sample_rate) + pcm_bytes(samples)
}

/// The 16-bit little-endian value stored at offset `i` of `bytes`.
pub open spec fn u16_at(bytes: Seq<u8>, i: int) -> u16 {
    (bytes[i] as u16) | ((bytes[i + 1] as u16) << 8)
}

/// The 32-bit little-endian value stored at offset `i` of `bytes`.
pub open spec fn u32_at(bytes: Seq<u8>, i: int) -> u32 {
    (bytes[i] as u32) | ((bytes[i + 1] as u32) << 8) | ((bytes[i + 2] as u32) << 16) | ((
    bytes[i + 3] as u32) << 24)
}

/// The signed 16-bit sample stored at offset `i` of `bytes`.
pub open spec fn i16_at(bytes: Seq<u8>, i: int) -> i16 {
    u16_at(bytes, i) as i16
}

proof fn lemma_le_u16_decodes(x: u16)
    ensures
        u16_at(le_u16(x), 0) == x,
{
    let b0 = (x & 0xff) as u8;
    let b1 = ((x >> 8) & 0xff) as u8;
    assert(((b0 as u16) | ((b1 as u16) << 8)) == x) by (bit_vector)
        requires
            b0 == (x & 0xff) as u8,
            b1 == ((x >> 8) & 0xff) as u8,
    ;
}

proof fn lemma_le_u32_decodes(x: u32)
    ensures
        u32_at(le_u32(x), 0) == x,
{
    let b0 = (x & 0xff) as u8;
    let b1 = ((x >> 8) & 0xff) as u8;
    let b2 = ((x >> 16) & 0xff) as u8;
    let b3 = ((x >> 24) & 0xff) as u8;
    assert(((b0 as u32) | ((b1 as u32) << 8) | ((b2 as u32) << 16) | ((b3 as u32) << 24)) == x)
        by (bit_vector)
        requires
            b0 == (x & 0xff) as u8,
            b1 == ((x >> 8) & 0xff) as u8,
            b2 == ((x >> 16) & 0xff) as u8,
            b3 == ((x >> 24) & 0xff) as u8,
    ;
}

proof fn lemma_le_i16_decodes(x: i16)
    ensures
        i16_at(le_i16(x), 0) == x,
{
    let u = x as u16;
    lemma_le_u16_decodes(u);
    assert((u as i16) == x) by (bit_vector)
        requires
            u == x as u16,
    ;
}

proof fn lemma_pcm_bytes_layout(samples: Seq<i16>)
    ensures
        pcm_bytes(samples).len() == 2 * samples.len(),
        forall|i: int|
            0 <= i < samples.len() ==> {
                &&& #[trigger] pcm_bytes(samples)[2 * i] == le_i16(samples[i])[0]
                &&& pcm_bytes(samples)[2 * i + 1] == le_i16(samples[i])[1]
            },
    decreases samples.len(),
{
    if samples.len() > 0 {
        let prefix = samples.drop_last();
        lemma_pcm_bytes_layout(prefix);
        assert forall|i: int| 0 <= i < samples.len() implies {
            &&& #[trigger] pcm_bytes(samples)[2 * i] == le_i16(samples[i])[0]
            &&& pcm_bytes(samples)[2 * i + 1] == le_i16(samples[i])[1]
        } by {
            if i < prefix.len() {
                assert(pcm_bytes(prefix)[2 * i] == le_i16(prefix[i])[0]);
            }
        }
    }
}

proof fn lemma_u16_at_shift(bytes: Seq<u8>, part: Seq<u8>, i: int)
    requires
        0 <= i,
        i + 2 <= bytes.len(),
        part.len() == 2,
        bytes[i] == part[0],
        bytes[i + 1] == part[1],
    ensures
        u16_at(bytes, i) == u16_at(part, 0),
{
}

proof fn lemma_u32_at_shift(bytes: Seq<u8>, part: Seq<u8>, i: int)
    requires
        0 <= i,
        i + 4 <= bytes.len(),
        part.len() == 4,
        bytes.subrange(i, i + 4) == part,
    ensures
        u32_at(bytes, i) == u32_at(part, 0),
{
    assert(bytes[i] == part[0] && bytes[i + 1] == part[1] && bytes[i + 2] == part[2] && bytes[i
        + 3] == part[3]);
}

/// Reading back a file that `pcm_to_wav` produces gives its inputs: the chunk
/// tags stand at their offsets, the RIFF size is the file length less 8, the
/// format chunk reads 16-bit mono PCM at `sample_rate` with a byte rate of
/// `sample_rate` times the block size, the data size is the file length less
/// 44, and sample `i` is read from offset 44 + 2i.
pub proof fn law_wav_layout(samples: Seq<i16>, sample_rate: u32)
    requires
        encodable(samples.len(), sample_rate),
    ensures
        ({
            let w = wav_file(samples, sample_rate);
            &&& w.len() == WAV_HEADER_LEN + 2 * samples.len()
            &&& w.subrange(0, 4) == riff_tag()
            &&& u32_at(w, 4) == w.len() - 8
            &&& w.subrange(8, 12) == wave_tag()
            &&& w.subrange(12, 16) == fmt_tag()
            &&& u32_at(w, 16) == 16
            &&& u16_at(w, 20) == 1
            &&& u16_at(w, 22) == NUM_CHANNELS
            &&& u32_at(w, 24) == sample_rate
            &&& u32_at(w, 28) == sample_rate * u16_at(w, 32)
            &&& u16_at(w, 32) == NUM_CHANNELS * BITS_PER_SAMPLE / 8
            &&& u16_at(w, 34) == BITS_PER_SAMPLE
            &&& w.subrange(36, 40) == data_tag()
            &&& u32_at(w, 40) == w.len() - WAV_HEADER_LEN
            &&& forall|i: int|
                0 <= i < samples.len() ==> #[trigger] i16_at(w, WAV_HEADER_LEN + 2 * i) == samples[i]
        }),
{
    let n = samples.len();
    let h = wav_header(n, sample_rate);
    let p = pcm_bytes(samples);
    let w = wav_file(samples, sample_rate);
    lemma_pcm_bytes_layout(samples);
    assert(h.len() == 44);
    assert(w.len() == 44 + 2 * n);
    let file_size = (36 + data_size(n)) as u32;
    let byte_rate = (sample_rate * 2) as u32;
    let dsize = data_size(n) as u32;
    assert(w.subrange(0, 4) =~= riff_tag());
    assert(w.subrange(4, 8) =~= le_u32(file_size));
    assert(w.subrange(8, 12) =~= wave_tag());
    assert(w.subrange(12, 16) =~= fmt_tag());
    assert(w.subrange(16, 20) =~= le_u32(16));
    assert(w.subrange(24, 28) =~= le_u32(sample_rate));
    assert(w.subrange(28, 32) =~= le_u32(byte_rate));
    assert(w.subrange(36, 40) =~= data_tag());
    assert(w.subrange(40, 44) =~= le_u32(dsize));
    lemma_u32_at_shift(w, le_u32(file_size), 4);
    lemma_le_u32_decodes(file_size);
    lemma_u32_at_shift(w, le_u32(16), 16);
    lemma_le_u32_decodes(16);
    lemma_u16_at_shift(w, le_u16(1), 20);
    lemma_le_u16_decodes(1);
    lemma_u16_at_shift(w, le_u16(NUM_CHANNELS), 22);
    lemma_le_u16_decodes(NUM_CHANNELS);
    lemma_u32_at_shift(w, le_u32(sample_rate), 24);
    lemma_le_u32_decodes(sample_rate);
    lemma_u32_at_shift(w, le_u32(byte_rate), 28);
    lemma_le_u32_decodes(byte_rate);
    lemma_u16_at_shift(w, le_u16(2), 32);
    lemma_le_u16_decodes(2);
    lemma_u16_at_shift(w, le_u16(BITS_PER_SAMPLE), 34);
    lemma_le_u16_decodes(BITS_PER_SAMPLE);
    lemma_u32_at_shift(w, le_u32(dsize), 40);
    lemma_le_u32_decodes(dsize);
    assert forall|i: int| 0 <= i < n implies #[trigger] i16_at(w, WAV_HEADER_LEN + 2 * i)
        == samples[i] by {
        assert(p[2 * i] == le_i16(samples[i])[0]);
        assert(w[44 + 2 * i] == p[2 * i]);
        assert(w[44 + 2 * i + 1] == p[2 * i + 1]);
        lemma_u16_at_shift(w, le_i16(samples[i]), 44 + 2 * i);
        lemma_le_i16_decodes(samples[i]);
    }
}

proof fn lemma_pcm_bytes_concat(a: Seq<i16>, b: Seq<i16>)
    ensures
        pcm_bytes(a + b) == pcm_bytes(a) + pcm_bytes(b),
    decreases b.len(),
{
    if b.len() == 0 {
        assert(a + b =~= a);
        assert(pcm_bytes(a) + pcm_bytes(b) =~= pcm_bytes(a));
    } else {
        lemma_pcm_bytes_concat(a, b.drop_last());
        assert((a + b).drop_last() =~= a + b.drop_last());
        assert((a + b).last() == b.last());
        assert(pcm_bytes(a + b) =~= pcm_bytes(a) + pcm_bytes(b));
    }
}

/// Each sample is encoded on its own and in order: the sample data of the
/// file for `a` followed by `b` is the sample data of the file for `a`
/// followed by that of the file for `b`.
pub proof fn law_pcm_concat(a: Seq<i16>, b: Seq<i16>, sample_rate: u32)
    requires
        encodable(a.len() + b.len(), sample_rate),
    ensures
        encodable(a.len(), sample_rate),
        encodable(b.len(), sample_rate),
        ({
            let whole = wav_file(a + b, sample_rate);
            let first = wav_file(a, sample_rate);
            let second = wav_file(b, sample_rate);
            whole.subrange(WAV_HEADER_LEN as int, whole.len() as int) == first.subrange(
                WAV_HEADER_LEN as int,
                first.len() as int,
            ) + second.subrange(WAV_HEADER_LEN as int, second.len() as int)
        }),
{
    lemma_pcm_bytes_concat(a, b);
    let whole = wav_file(a + b, sample_rate);
    let first = wav_file(a, sample_rate);
    let second = wav_file(b, sample_rate);
    assert(wav_header((a + b).len(), sample_rate).len() == 44);
    assert(wav_header(a.len(), sample_rate).len() == 44);
    assert(wav_header(b.len(), sample_rate).len() == 44);
    assert(whole.subrange(44, whole.len() as int) =~= pcm_bytes(a + b));
    assert(first.subrange(44, first.len() as int) =~= pcm_bytes(a));
    assert(second.subrange(44, second.len() as int) =~= pcm_bytes(b));
}

fn push_u16_le(out: &mut Vec<u8>, x: u16)
    ensures
        final(out)@ == old(out)@ + le_u16(x),
{
    out.push((x & 0xff) as u8);
    out.push(((x >> 8) & 0xff) as u8);
}

fn push_u32_le(out: &mut Vec<u8>, x: u32)
    ensures
        final(out)@ == old(out)@ + le_u32(x),
{
    out.push((x & 0xff) as u8);
    out.push(((x >> 8) & 0xff) as u8);
    out.push(((x >> 16) & 0xff) as u8);
    out.push(((x >> 24) & 0xff) as u8);
}

fn push_tag(out: &mut Vec<u8>, a: u8, b: u8, c: u8, d: u8)
    ensures
        final(out)@ == old(out)@ + tag(a, b, c, d),
{
    out.push(a);
    out.push(b);
    out.push(c);
    out.push(d);
}

/// Encodes 16-bit PCM samples (mono) as a WAV file: the 44-byte RIFF header
/// followed by each sample as two little-endian bytes.
pub fn pcm_to_wav(pcm_data: &[i16], sample_rate: u32) -> (wav: Vec<u8>)
    requires
        encodable(pcm_data@.len(), sample_rate),
    ensures
        wav@ == wav_file(pcm_data@, sample_rate),
{
    let num_samples = pcm_data.len();
    let channels: u32 = NUM_CHANNELS as u32;
    let bytes_per_sample: u32 = (BITS_PER_SAMPLE / 8) as u32;
    assert(channels == 1 && bytes_per_sample == 2);
    let byte_rate: u32 = sample_rate * channels * bytes_per_sample;
    let block_align: u16 = NUM_CHANNELS * BITS_PER_SAMPLE / 8;
    let data_size: u32 = (num_samples as u32) * bytes_per_sample;
    let file_size: u32 = 36 + data_size;

    let mut wav: Vec<u8> = Vec::with_capacity(WAV_HEADER_LEN + num_samples * 2);

    push_tag(&mut wav, 0x52, 0x49, 0x46, 0x46);
    push_u32_le(&mut wav, file_size);
    push_tag(&mut wav, 0x57, 0x41, 0x56, 0x45);

    push_tag(&mut wav, 0x66, 0x6d, 0x74, 0x20);
    push_u32_le(&mut wav, 16);
    push_u16_le(&mut wav, 1);
    push_u16_le(&mut wav, NUM_CHANNELS);
    push_u32_le(&mut wav, sample_rate);
    push_u32_le(&mut wav, byte_rate);
    push_u16_le(&mut wav, block_align);
    push_u16_le(&mut wav, BITS_PER_SAMPLE);

    push_tag(&mut wav, 0x64, 0x61, 0x74, 0x61);
    push_u32_le(&mut wav, data_size);

    assert(wav@ == wav_header(num_samples as nat, sample_rate));
    assert(pcm_data@.take(0) =~= Seq::<i16>::empty());

    let mut i: usize = 0;
    while i < num_samples
        invariant
            i <= num_samples,
            num_samples == pcm_data@.len(),
            wav@ == wav_header(num_samples as nat, sample_rate) + pcm_bytes(pcm_data@.take(i as int)),
        decreases num_samples - i,
    {
        let sample = pcm_data[i];
        push_u16_le(&mut wav, #[verifier::truncate] (sample as u16));
        assert(pcm_data@.take(i + 1).drop_last() =~= pcm_data@.take(i as int));
        assert(wav@ =~= wav_header(num_samples as nat, sample_rate) + pcm_bytes(pcm_data@.take(i + 1)));
        i = i + 1;
    }
    assert(pcm_data@.take(num_samples as int) =~= pcm_data@);
    wav
}

} // verus!
