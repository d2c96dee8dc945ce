//! Raw PCM audio: 16-bit samples as bytes, and the chunks that are appended.
use vstd::prelude::*;

verus! {

/// The two bytes of a sample as one number: its two's complement in 16 bits.
pub open spec fn sample_word(sample: i16) -> int {
    if sample < 0 {
        sample + 0x1_0000
    } else {
        sample as int
    }
}

/// The bytes of a sample, the low byte first.
pub open spec fn sample_bytes(sample: i16) -> Seq<u8> {
    seq![(sample_word(sample) % 256) as u8, (sample_word(sample) / 256) as u8]
}

/// The bytes of the samples, one after the other.
pub open spec fn samples_bytes(samples: Seq<i16>) -> Seq<u8>
    decreases samples.len(),
{
    if samples.len() == 0 {
        Seq::empty()
    } else {
        samples_bytes(samples.drop_last()) + sample_bytes(samples.last())
    }
}

/// Packs samples as signed 16-bit little-endian PCM.
pub fn pcm_from_samples(samples: &[i16]) -> (res: Vec<u8>)
    ensures
        res@ == samples_bytes(samples@),
        res@.len() == 2 * samples@.len(),
{
    let mut res: Vec<u8> = Vec::new();
    let mut i: usize = 0;
    while i < samples.len()
        invariant
            i <= samples@.len(),
            res@ == samples_bytes(samples@.take(i as int)),
            res@.len() == 2 * i,
        decreases samples@.len() - i,
    {
        let sample = samples[i];
        let word: i32 = if sample < 0 {
            sample as i32 + 0x1_0000
        } else {
            sample as i32
        };
        let ghost before = res@;
        res.push((word % 256) as u8);
        res.push((word / 256) as u8);
        proof {
            assert(samples@.take(i + 1).drop_last() =~= samples@.take(i as int));
            assert(res@ =~= before + sample_bytes(sample));
        }
        i = i + 1;
    }
    assert(samples@.take(i as int) =~= samples@);
    res
}

/// The data cut into chunks of `size` bytes. The last chunk may be shorter, and
/// no chunk is empty.
pub open spec fn chunks_of(data: Seq<u8>, size: int) -> Seq<Seq<u8>>
    decreases data.len(),
{
    if data.len() == 0 || size <= 0 {
        Seq::empty()
    } else if data.len() <= size {
        seq![data]
    } else {
        seq![data.take(size)] + chunks_of(data.skip(size), size)
    }
}

/// The views of a sequence of byte vectors.
pub open spec fn byte_views(chunks: Seq<Vec<u8>>) -> Seq<Seq<u8>> {
    chunks.map_values(|chunk: Vec<u8>| chunk@)
}

/// Cuts audio into the chunks to append.
pub fn pcm_chunks(data: &[u8], size: usize) -> (res: Vec<Vec<u8>>)
    requires
        size > 0,
    ensures
        byte_views(res@) == chunks_of(data@, size as int),
{
    let mut res: Vec<Vec<u8>> = Vec::new();
    let mut at: usize = 0;
    proof {
        assert(data@.skip(0) =~= data@);
        assert(byte_views(res@) + chunks_of(data@, size as int) =~= chunks_of(data@, size as int));
    }
    while at < data.len()
        invariant
            size > 0,
            at <= data@.len(),
            byte_views(res@) + chunks_of(data@.skip(at as int), size as int) == chunks_of(
                data@,
                size as int,
            ),
        decreases data@.len() - at,
    {
        let ghost rest = data@.skip(at as int);
        let ghost before = byte_views(res@);
        let end: usize = if data.len() - at <= size {
            data.len()
        } else {
            at + size
        };
        let chunk = vstd::slice::slice_to_vec(vstd::slice::slice_subrange(data, at, end));
        res.push(chunk);
        proof {
            assert(rest.take(end - at) =~= data@.subrange(at as int, end as int));
            assert(byte_views(res@) =~= before.push(rest.take(end - at)));
            assert(rest.skip(end - at) =~= data@.skip(end as int));
            if rest.len() <= size {
                assert(rest.take(end - at) =~= rest);
            }
            assert(byte_views(res@) + chunks_of(data@.skip(end as int), size as int) =~= before
                + chunks_of(rest, size as int));
        }
        at = end;
    }
    assert(byte_views(res@) =~= chunks_of(data@, size as int));
    res
}

/// Cutting audio loses nothing: the chunks put together are the data. No chunk is
/// empty or longer than the size, and only the last may be shorter.
pub proof fn law_chunks_are_the_data(data: Seq<u8>, size: int)
    requires
        size > 0,
    ensures
        chunks_of(data, size).flatten() == data,
        forall|i: int|
            0 <= i < chunks_of(data, size).len() ==> 0 < #[trigger] chunks_of(data, size)[i].len()
                <= size,
        forall|i: int|
            0 <= i < chunks_of(data, size).len() - 1 ==> #[trigger] chunks_of(data, size)[i].len()
                == size,
    decreases data.len(),
{
    let chunks = chunks_of(data, size);
    if data.len() == 0 {
        assert(chunks.flatten() =~= data);
    } else if data.len() <= size {
        chunks.lemma_flatten_one_element();
    } else {
        let rest = chunks_of(data.skip(size), size);
        law_chunks_are_the_data(data.skip(size), size);
        assert(chunks.drop_first() =~= rest);
        assert(chunks.first() == data.take(size));
        assert(data.take(size) + data.skip(size) =~= data);
        assert forall|i: int| 0 <= i < chunks.len() implies 0 < #[trigger] chunks[i].len()
            <= size by {
            if i > 0 {
                assert(chunks[i] == rest[i - 1]);
            }
        }
        assert forall|i: int| 0 <= i < chunks.len() - 1 implies #[trigger] chunks[i].len()
            == size by {
            if i > 0 {
                assert(chunks[i] == rest[i - 1]);
            }
        }
    }
}

/// Samples are packed without loss: the bytes of each stand at twice its index, the low byte
/// first, and read together as a signed 16-bit number they are the sample.
pub proof fn law_samples_read_back(samples: Seq<i16>, i: int)
    requires
        0 <= i < samples.len(),
    ensures
        samples_bytes(samples).len() == 2 * samples.len(),
        ({
            let word = samples_bytes(samples)[2 * i] + 256 * samples_bytes(samples)[2 * i + 1];
            samples[i] == (if word < 0x8000 {
                word
            } else {
                word - 0x1_0000
            })
        }),
    decreases samples.len(),
{
    let front = samples.drop_last();
    lemma_samples_len(samples);
    lemma_samples_len(front);
    let last = sample_bytes(samples.last());
    if i < front.len() {
        law_samples_read_back(front, i);
        assert(samples_bytes(samples)[2 * i] == samples_bytes(front)[2 * i]);
        assert(samples_bytes(samples)[2 * i + 1] == samples_bytes(front)[2 * i + 1]);
    } else {
        assert(samples_bytes(samples)[2 * i] == last[0]);
        assert(samples_bytes(samples)[2 * i + 1] == last[1]);
    }
}

proof fn lemma_samples_len(samples: Seq<i16>)
    ensures
        samples_bytes(samples).len() == 2 * samples.len(),
    decreases samples.len(),
{
    if samples.len() > 0 {
        lemma_samples_len(samples.drop_last());
    }
}

/// The chunks are shown byte for byte.
pub proof fn law_chunks_are_shown_whole(chunks: Seq<Vec<u8>>)
    ensures
        byte_views(chunks).len() == chunks.len(),
        forall|i: int| 0 <= i < chunks.len() ==> #[trigger] byte_views(chunks)[i] == chunks[i]@,
{
}

} // verus!
