//! Mono 16-bit PCM audio in a WAV container: writing it and reading it
//! back.
//!
//! A file is the RIFF header, a format chunk of sixteen bytes and a data
//! chunk with the samples, two bytes each, low byte first. Reading walks
//! the chunks after the header until it finds the data chunk.

use vstd::prelude::*;

verus! {

/// Why bytes could not be read as a WAV file.
#[derive(Clone, Copy, Debug, PartialEq, Eq, Structural)]
pub enum WavError {
    /// Fewer bytes than the shortest file has.
    TooShort,
    /// The bytes do not begin as a WAV file does.
    BadHeader,
    /// No data chunk was found.
    NoData,
}

/// The length of the header, up to the first sample.
pub const HEADER_LEN: usize = 44;

/// The two bytes of `value`, low byte first.
pub open spec fn le16(value: u16) -> Seq<u8> {
    seq![(value % 256) as u8, (value / 256) as u8]
}

/// The four bytes of `value`, low byte first.
pub open spec fn le32(value: u32) -> Seq<u8> {
    seq![
        (value % 256) as u8,
        ((value / 256) % 256) as u8,
        ((value / 65536) % 256) as u8,
        (value / 16777216) as u8,
    ]
}

/// The number whose four bytes, low byte first, are these.
pub open spec fn from_le32(b0: u8, b1: u8, b2: u8, b3: u8) -> u32 {
    (b0 + 256 * b1 + 65536 * b2 + 16777216 * b3) as u32
}

/// The bits of `sample` read as a number without sign.
pub open spec fn bits_of(sample: i16) -> u16 {
    if sample >= 0 {
        sample as u16
    } else {
        (sample + 65536) as u16
    }
}

/// The sample whose two bytes, low byte first, are these.
pub open spec fn sample_of(low: u8, high: u8) -> i16 {
    if low + 256 * high < 32768 {
        (low + 256 * high) as i16
    } else {
        (low + 256 * high - 65536) as i16
    }
}

/// The letters `RIFF`.
pub open spec fn riff() -> Seq<u8> {
    seq![0x52u8, 0x49u8, 0x46u8, 0x46u8]
}

/// The letters `WAVE`.
pub open spec fn wave() -> Seq<u8> {
    seq![0x57u8, 0x41u8, 0x56u8, 0x45u8]
}

/// The letters `fmt` and a blank.
pub open spec fn fmt_id() -> Seq<u8> {
    seq![0x66u8, 0x6du8, 0x74u8, 0x20u8]
}

/// The letters `data`.
pub open spec fn data_id() -> Seq<u8> {
    seq![0x64u8, 0x61u8, 0x74u8, 0x61u8]
}

/// The bytes of `samples`, two each, low byte first.
pub open spec fn sample_bytes(samples: Seq<i16>) -> Seq<u8>
    decreases samples.len(),
{
    if samples.len() == 0 {
        Seq::empty()
    } else {
        sample_bytes(samples.drop_last()) + le16(bits_of(samples.last()))
    }
}

/// The header of a file with `count` samples at `sample_rate`. The two
/// sizes are kept in four bytes each and wrap round where they do not fit.
pub open spec fn header(sample_rate: u32, count: nat) -> Seq<u8> {
    riff() + le32(((36 + 2 * count) % 0x1_0000_0000) as u32) + wave() + fmt_id() + le32(16) + le16(1)
        + le16(1) + le32(sample_rate) + le32((2 * sample_rate) as u32) + le16(2) + le16(16)
        + data_id() + le32(((2 * count) % 0x1_0000_0000) as u32)
}

/// The file that holds `samples` at `sample_rate`.
pub open spec fn encoded(samples: Seq<i16>, sample_rate: u32) -> Seq<u8> {
    header(sample_rate, samples.len()) + sample_bytes(samples)
}

fn push_le16(out: &mut Vec<u8>, value: u16)
    ensures
        final(out)@ == old(out)@ + le16(value),
{
    out.push((value % 256) as u8);
    out.push((value / 256) as u8);
    assert(out@ =~= old(out)@ + le16(value));
}

fn push_le32(out: &mut Vec<u8>, value: u32)
    ensures
        final(out)@ == old(out)@ + le32(value),
{
    out.push((value % 256) as u8);
    out.push(((value / 256) % 256) as u8);
    out.push(((value / 65536) % 256) as u8);
    out.push((value / 16777216) as u8);
    assert(out@ =~= old(out)@ + le32(value));
}

fn push_id(out: &mut Vec<u8>, b0: u8, b1: u8, b2: u8, b3: u8)
    ensures
        final(out)@ == old(out)@ + seq![b0, b1, b2, b3],
{
    out.push(b0);
    out.push(b1);
    out.push(b2);
    out.push(b3);
    assert(out@ =~= old(out)@ + seq![b0, b1, b2, b3]);
}

/// Writes `samples` as a WAV file at `sample_rate`.
pub fn encode_pcm16(samples: &Vec<i16>, sample_rate: u32) -> (bytes: Vec<u8>)
    requires
        2 * sample_rate <= u32::MAX,
    ensures
        bytes@ == encoded(samples@, sample_rate),
{
    let count = samples.len();
    let data_size = ((2 * (count as u128)) % 0x1_0000_0000) as u32;
    let file_size = ((36 + 2 * (count as u128)) % 0x1_0000_0000) as u32;
    let mut bytes: Vec<u8> = Vec::new();
    assert(bytes@ + riff() =~= riff());
    push_id(&mut bytes, 0x52, 0x49, 0x46, 0x46);
    push_le32(&mut bytes, file_size);
    push_id(&mut bytes, 0x57, 0x41, 0x56, 0x45);
    push_id(&mut bytes, 0x66, 0x6d, 0x74, 0x20);
    push_le32(&mut bytes, 16);
    push_le16(&mut bytes, 1);
    push_le16(&mut bytes, 1);
    push_le32(&mut bytes, sample_rate);
    push_le32(&mut bytes, 2 * sample_rate);
    push_le16(&mut bytes, 2);
    push_le16(&mut bytes, 16);
    push_id(&mut bytes, 0x64, 0x61, 0x74, 0x61);
    push_le32(&mut bytes, data_size);
    assert(bytes@ == header(sample_rate, count as nat));
    let mut i: usize = 0;
    assert(samples@.take(0) =~= Seq::<i16>::empty());
    assert(bytes@ =~= header(sample_rate, count as nat) + sample_bytes(samples@.take(0)));
    while i < count
        invariant
            count == samples@.len(),
            i <= count,
            bytes@ == header(sample_rate, count as nat) + sample_bytes(samples@.take(i as int)),
        decreases count - i,
    {
        let sample = samples[i];
        let bits: u16 = if sample >= 0 {
            sample as u16
        } else {
            (sample as i32 + 65536) as u16
        };
        proof {
            let next = samples@.take(i + 1);
            assert(next.drop_last() =~= samples@.take(i as int));
            assert(next.last() == sample);
        }
        push_le16(&mut bytes, bits);
        i = i + 1;
        assert(bytes@ =~= header(sample_rate, count as nat) + sample_bytes(samples@.take(i as int)));
    }
    assert(samples@.take(count as int) =~= samples@);
    bytes
}

/// Whether the four bytes of `bytes` from `at` on are `id`.
pub open spec fn has_id(bytes: Seq<u8>, at: int, id: Seq<u8>) -> bool {
    bytes.subrange(at, at + 4) == id
}

/// The size that the chunk at `at` states.
pub open spec fn chunk_size(bytes: Seq<u8>, at: int) -> u32 {
    from_le32(bytes[at + 4], bytes[at + 5], bytes[at + 6], bytes[at + 7])
}

/// Where the chunk after the one at `at` begins: past its eight bytes of
/// heading and its content, and one more where the content is odd.
pub open spec fn next_chunk(bytes: Seq<u8>, at: int) -> int {
    at + 8 + chunk_size(bytes, at) + chunk_size(bytes, at) % 2
}

/// How many bytes lie at or after `at`.
pub open spec fn room(bytes: Seq<u8>, at: int) -> nat {
    if at < bytes.len() {
        (bytes.len() - at) as nat
    } else {
        0
    }
}

/// The bounds of the content of the first data chunk at or after `at`. A
/// chunk counts only if more than its heading lies within the bytes; a
/// stated size that runs beyond the end is cut at the end.
pub open spec fn find_data(bytes: Seq<u8>, at: int) -> Option<(int, int)>
    decreases room(bytes, at),
{
    if at >= 0 && at + 8 < bytes.len() {
        if has_id(bytes, at, data_id()) {
            let end = at + 8 + chunk_size(bytes, at);
            Some(
                (
                    at + 8,
                    if end < bytes.len() {
                        end
                    } else {
                        bytes.len() as int
                    },
                ),
            )
        } else {
            find_data(bytes, next_chunk(bytes, at))
        }
    } else {
        None
    }
}

/// The samples in `data`: one for each full pair of bytes.
pub open spec fn samples_in(data: Seq<u8>) -> Seq<i16> {
    Seq::new((data.len() / 2) as nat, |i: int| sample_of(data[2 * i], data[2 * i + 1]))
}

/// What reading `bytes` as a WAV file gives.
pub open spec fn decoded(bytes: Seq<u8>) -> Result<Seq<i16>, WavError> {
    if bytes.len() < HEADER_LEN {
        Err(WavError::TooShort)
    } else if !has_id(bytes, 0, riff()) || !has_id(bytes, 8, wave()) {
        Err(WavError::BadHeader)
    } else {
        match find_data(bytes, 12) {
            Some((from, to)) => Ok(samples_in(bytes.subrange(from, to))),
            None => Err(WavError::NoData),
        }
    }
}

fn id_at(bytes: &[u8], at: usize, b0: u8, b1: u8, b2: u8, b3: u8) -> (same: bool)
    requires
        at + 4 <= bytes@.len(),
    ensures
        same == has_id(bytes@, at as int, seq![b0, b1, b2, b3]),
{
    let same = bytes[at] == b0 && bytes[at + 1] == b1 && bytes[at + 2] == b2 && bytes[at + 3] == b3;
    proof {
        let part = bytes@.subrange(at as int, at + 4);
        assert(part[0] == bytes@[at as int]);
        assert(part[1] == bytes@[at + 1]);
        assert(part[2] == bytes@[at + 2]);
        assert(part[3] == bytes@[at + 3]);
        if same {
            assert(part =~= seq![b0, b1, b2, b3]);
        }
    }
    same
}

fn read_samples(bytes: &[u8], from: usize, to: usize) -> (samples: Vec<i16>)
    requires
        from <= to <= bytes@.len(),
    ensures
        samples@ == samples_in(bytes@.subrange(from as int, to as int)),
{
    let ghost data = bytes@.subrange(from as int, to as int);
    let pairs = (to - from) / 2;
    let mut samples: Vec<i16> = Vec::new();
    let mut i: usize = 0;
    while i < pairs
        invariant
            from <= to <= bytes@.len(),
            pairs == (to - from) / 2,
            i <= pairs,
            data == bytes@.subrange(from as int, to as int),
            samples@.len() == i,
            forall|k: int| 0 <= k < i ==> samples@[k] == sample_of(data[2 * k], data[2 * k + 1]),
        decreases pairs - i,
    {
        let low = bytes[from + 2 * i];
        let high = bytes[from + 2 * i + 1];
        let bits: u32 = low as u32 + 256 * (high as u32);
        let sample: i16 = if bits < 32768 {
            bits as i16
        } else {
            (bits as i32 - 65536) as i16
        };
        samples.push(sample);
        i = i + 1;
    }
    assert(samples@ =~= samples_in(data));
    samples
}

/// Reads `bytes` as a WAV file of mono 16-bit samples.
pub fn decode_pcm16(bytes: &[u8]) -> (samples: Result<Vec<i16>, WavError>)
    ensures
        samples is Ok <==> decoded(bytes@) is Ok,
        samples matches Ok(list) ==> decoded(bytes@) == Ok::<Seq<i16>, WavError>(list@),
        samples matches Err(error) ==> decoded(bytes@) == Err::<Seq<i16>, WavError>(error),
{
    let len = bytes.len();
    if len < HEADER_LEN {
        return Err(WavError::TooShort);
    }
    if !id_at(bytes, 0, 0x52, 0x49, 0x46, 0x46) || !id_at(bytes, 8, 0x57, 0x41, 0x56, 0x45) {
        return Err(WavError::BadHeader);
    }
    let mut at: usize = 12;
    while len - at > 8
        invariant
            len == bytes@.len(),
            len >= HEADER_LEN,
            at <= len,
            has_id(bytes@, 0, riff()),
            has_id(bytes@, 8, wave()),
            find_data(bytes@, at as int) == find_data(bytes@, 12),
        decreases len - at,
    {
        let size: u32 = bytes[at + 4] as u32 + 256 * (bytes[at + 5] as u32) + 65536 * (bytes[at
            + 6] as u32) + 16777216 * (bytes[at + 7] as u32);
        assert(size == chunk_size(bytes@, at as int));
        let room = len - at - 8;
        if id_at(bytes, at, 0x64, 0x61, 0x74, 0x61) {
            let from = at + 8;
            let to = if (size as u64) < (room as u64) {
                from + size as usize
            } else {
                len
            };
            assert(find_data(bytes@, at as int) == Some((from as int, to as int)));
            return Ok(read_samples(bytes, from, to));
        }
        let step: u64 = size as u64 + (size % 2) as u64;
        if step >= room as u64 {
            assert(find_data(bytes@, next_chunk(bytes@, at as int)) is None);
            return Err(WavError::NoData);
        }
        at = at + 8 + step as usize;
    }
    Err(WavError::NoData)
}


proof fn lemma_le32_round_trip(value: u32)
    ensures
        le32(value).len() == 4,
        from_le32(le32(value)[0], le32(value)[1], le32(value)[2], le32(value)[3]) == value,
{
}

proof fn lemma_sample_round_trip(sample: i16)
    ensures
        le16(bits_of(sample)).len() == 2,
        sample_of(le16(bits_of(sample))[0], le16(bits_of(sample))[1]) == sample,
{
}

proof fn lemma_sample_bytes(samples: Seq<i16>)
    ensures
        sample_bytes(samples).len() == 2 * samples.len(),
        samples_in(sample_bytes(samples)) == samples,
    decreases samples.len(),
{
    if samples.len() == 0 {
        assert(samples_in(sample_bytes(samples)) =~= samples);
    } else {
        let shorter = samples.drop_last();
        lemma_sample_bytes(shorter);
        lemma_sample_round_trip(samples.last());
        let bytes = sample_bytes(samples);
        let before = sample_bytes(shorter);
        assert forall|k: int| 0 <= k < samples.len() implies samples_in(bytes)[k] == samples[k] by {
            if k < shorter.len() {
                assert(bytes[2 * k] == before[2 * k]);
                assert(bytes[2 * k + 1] == before[2 * k + 1]);
                assert(samples_in(before)[k] == shorter[k]);
            } else {
                assert(bytes[2 * k] == le16(bits_of(samples.last()))[0]);
                assert(bytes[2 * k + 1] == le16(bits_of(samples.last()))[1]);
            }
        }
        assert(samples_in(bytes) =~= samples);
    }
}

/// What is written can be read back. A file written from at least one
/// sample, and from no more than its size field can count, reads back as
/// exactly those samples. A file written from no sample at all does not: it
/// ends with the heading of its data chunk, and a chunk counts only if
/// more than its heading is there.
pub proof fn law_wav_round_trip(samples: Seq<i16>, sample_rate: u32)
    requires
        2 * samples.len() <= u32::MAX,
    ensures
        samples.len() > 0 ==> decoded(encoded(samples, sample_rate)) == Ok::<Seq<i16>, WavError>(
            samples,
        ),
        samples.len() == 0 ==> decoded(encoded(samples, sample_rate)) == Err::<Seq<i16>, WavError>(
            WavError::NoData,
        ),
{
    let count = samples.len();
    let head = header(sample_rate, count);
    let bytes = encoded(samples, sample_rate);
    let data_size = ((2 * count) % 0x1_0000_0000) as u32;
    lemma_sample_bytes(samples);
    lemma_le32_round_trip(16);
    lemma_le32_round_trip(data_size);
    assert(head.len() == 44);
    assert(bytes.len() == 44 + 2 * count);
    assert(bytes.subrange(0, 4) =~= riff());
    assert(bytes.subrange(8, 12) =~= wave());
    assert(bytes.subrange(12, 16) =~= fmt_id());
    assert(bytes.subrange(36, 40) =~= data_id());
    assert(fmt_id() != data_id()) by {
        assert(fmt_id()[0] != data_id()[0]);
    }
    assert(bytes[16] == le32(16)[0] && bytes[17] == le32(16)[1] && bytes[18] == le32(16)[2]
        && bytes[19] == le32(16)[3]);
    assert(chunk_size(bytes, 12) == 16);
    assert(next_chunk(bytes, 12) == 36);
    assert(bytes[40] == le32(data_size)[0] && bytes[41] == le32(data_size)[1] && bytes[42] == le32(
        data_size,
    )[2] && bytes[43] == le32(data_size)[3]);
    assert(chunk_size(bytes, 36) == 2 * count);
    if count > 0 {
        assert(find_data(bytes, 36) == Some((44int, bytes.len() as int)));
        assert(find_data(bytes, 12) == find_data(bytes, 36));
        assert(bytes.subrange(44, bytes.len() as int) =~= sample_bytes(samples));
    } else {
        assert(find_data(bytes, 36) is None);
        assert(find_data(bytes, 12) == find_data(bytes, 36));
    }
}

} // verus!
