//! The byte layout that host and compute program agree on: sixteen bytes for each
//! candidate going in, thirty-two for each result coming out, of which the first
//! twenty carry the step count and the largest value reached.

use vstd::prelude::*;
use crate::codec::{
    bytes_of, lemma_value_of_words_bound, lemma_value_round_trip, lemma_word_of_bytes_bound,
    lemma_words_round_trip_back, read_word, u128_to_u32_array, u32_array_to_bytes,
    u32_array_to_u128, value_of_bytes, word_at, word_of_bytes, words_of, words_of_bytes,
};
use crate::range::{candidates_from, range_fits, CandidateRange};

verus! {

/// Bytes of one input record: a candidate as four words.
pub const INPUT_RECORD_BYTES: u64 = 16;

/// Bytes of one output record, padding included.
pub const OUTPUT_RECORD_BYTES: u64 = 32;

/// Bytes of an output record that carry a result; the rest is padding.
pub const RESULT_BYTES: u64 = 20;

/// What the compute program found for one candidate.
#[derive(Clone, Copy, Debug, PartialEq, Eq, Structural)]
pub struct ComputeResult {
    /// The candidate.
    pub input: u128,
    /// The steps its trajectory took.
    pub steps: u32,
    /// The largest value on its trajectory.
    pub max_value: u128,
}

/// The input buffer's contents: the candidates' sixteen bytes each, in order.
pub open spec fn input_bytes(start: u128, count: u32) -> Seq<u8> {
    Seq::new(16 * count as nat, |k: int| bytes_of((start + k / 16) as u128)[k % 16])
}

/// The meaningful bytes of record `i`: the first twenty of its thirty-two.
pub open spec fn record_bytes(bytes: Seq<u8>, i: int) -> Seq<u8> {
    bytes.subrange(32 * i, 32 * i + 20)
}

/// The result that record `i` of an output buffer holds for candidate `start + i`.
pub open spec fn decoded_record(bytes: Seq<u8>, start: u128, i: int) -> ComputeResult {
    let record = record_bytes(bytes, i);
    ComputeResult {
        input: (start + i) as u128,
        steps: word_of_bytes(record.subrange(0, 4)) as u32,
        max_value: value_of_bytes(record.subrange(4, 20)) as u128,
    }
}

/// The results that an output buffer holds for a range, in candidate order.
pub open spec fn decoded(bytes: Seq<u8>, start: u128, count: u32) -> Seq<ComputeResult> {
    Seq::new(count as nat, |i: int| decoded_record(bytes, start, i))
}

/// Results as flat words, five for each: the step count, then the largest value's
/// four words, least significant first.
pub open spec fn flattened(results: Seq<ComputeResult>) -> Seq<u32> {
    Seq::new(
        5 * results.len(),
        |k: int|
            if k % 5 == 0 {
                results[k / 5].steps
            } else {
                word_at(results[k / 5].max_value, k % 5 - 1)
            },
    )
}

/// Size of the input buffer for `count` candidates.
pub fn input_size(count: u32) -> (size: u64)
    ensures
        size == count * 16,
{
    (count as u64) * INPUT_RECORD_BYTES
}

/// Size of the output buffer, and of the staging buffer, for `count` candidates.
pub fn output_size(count: u32) -> (size: u64)
    ensures
        size == count * 32,
{
    (count as u64) * OUTPUT_RECORD_BYTES
}

/// The input buffer's contents for a range.
pub fn encode_input(range: &CandidateRange) -> (bytes: Vec<u8>)
    ensures
        bytes@ == input_bytes(range.start(), range.count()),
{
    let start: u128 = range.start();
    let count: u32 = range.count();
    let mut bytes: Vec<u8> = Vec::new();
    let mut i: u32 = 0;
    while i < count
        invariant
            i <= count,
            range_fits(start, count),
            bytes@ == input_bytes(start, i),
        decreases count - i,
    {
        let record: [u8; 16] = u32_array_to_bytes(&u128_to_u32_array(start + (i as u128)));
        let mut j: usize = 0;
        while j < 16
            invariant
                j <= 16,
                i < count,
                range_fits(start, count),
                record@ == bytes_of((start + i) as u128),
                bytes@ == input_bytes(start, i) + record@.subrange(0, j as int),
            decreases 16 - j,
        {
            bytes.push(record[j]);
            j = j + 1;
            assert(bytes@ =~= input_bytes(start, i) + record@.subrange(0, j as int));
        }
        i = i + 1;
        assert(bytes@ =~= input_bytes(start, i));
    }
    bytes
}

/// The mapped bytes as records of thirty-two bytes each.
///
/// This is `bytemuck::cast_slice` from `u8` to `[u8; 32]`, which is trusted, not
/// proved: it hands out the same memory under the other type, so record `i` is
/// bytes `32 i .. 32 i + 32`. Both types are aligned to one byte, so the cast
/// fails only on a length that is no whole number of records, which the
/// precondition leaves out.
#[verifier::external_body]
fn as_records(bytes: &[u8]) -> (records: &[[u8; 32]])
    requires
        bytes@.len() % 32 == 0,
    ensures
        records@.len() * 32 == bytes@.len(),
        forall|i: int|
            0 <= i < records@.len() ==> (#[trigger] records@[i])@ == bytes@.subrange(
                32 * i,
                32 * i + 32,
            ),
{
    bytemuck::cast_slice(bytes)
}

/// The results that the mapped output of a range holds, in candidate order, or
/// nothing where `bytes` is not thirty-two bytes for each candidate.
pub fn decode_results(bytes: &[u8], range: &CandidateRange) -> (r: Option<Vec<ComputeResult>>)
    ensures
        bytes@.len() == 32 * range.count() ==> r is Some && r->Some_0@ == decoded(
            bytes@,
            range.start(),
            range.count(),
        ),
        bytes@.len() != 32 * range.count() ==> r is None,
{
    let start: u128 = range.start();
    let count: u32 = range.count();
    if bytes.len() as u64 != output_size(count) {
        return None;
    }
    let records = as_records(bytes);
    let mut results: Vec<ComputeResult> = Vec::new();
    let mut i: u32 = 0;
    while i < count
        invariant
            i <= count,
            range_fits(start, count),
            bytes@.len() == 32 * count,
            records@.len() == count,
            forall|r: int|
                0 <= r < count ==> (#[trigger] records@[r])@ == bytes@.subrange(
                    32 * r,
                    32 * r + 32,
                ),
            results@ == decoded(bytes@, start, i),
        decreases count - i,
    {
        let record: &[u8; 32] = &records[i as usize];
        let steps: u32 = read_word(record.as_slice(), 0);
        let words: [u32; 4] = [
            read_word(record.as_slice(), 4),
            read_word(record.as_slice(), 8),
            read_word(record.as_slice(), 12),
            read_word(record.as_slice(), 16),
        ];
        let max_value: u128 = u32_array_to_u128(&words);
        proof {
            let result = record_bytes(bytes@, i as int);
            assert(result =~= record@.subrange(0, 20));
            assert(result.subrange(0, 4) =~= record@.subrange(0, 4));
            let max_bytes = result.subrange(4, 20);
            assert forall|w: int| 0 <= w < 4 implies #[trigger] max_bytes.subrange(
                4 * w,
                4 * w + 4,
            ) == record@.subrange(4 + 4 * w, 8 + 4 * w) by {
                assert(max_bytes.subrange(4 * w, 4 * w + 4) =~= record@.subrange(
                    4 + 4 * w,
                    8 + 4 * w,
                ));
            }
            assert(words@ =~= words_of_bytes(max_bytes));
        }
        results.push(ComputeResult { input: start + (i as u128), steps, max_value });
        i = i + 1;
        assert(results@ =~= decoded(bytes@, start, i));
    }
    Some(results)
}

/// Results as flat words, five for each, the padding dropped.
pub fn result_words(results: &[ComputeResult]) -> (words: Vec<u32>)
    ensures
        words@ == flattened(results@),
{
    let mut words: Vec<u32> = Vec::new();
    let mut i: usize = 0;
    while i < results.len()
        invariant
            i <= results@.len(),
            words@ == flattened(results@.subrange(0, i as int)),
        decreases results@.len() - i,
    {
        let result: ComputeResult = results[i];
        let parts: [u32; 4] = u128_to_u32_array(result.max_value);
        let ghost before = words@;
        words.push(result.steps);
        words.push(parts[0]);
        words.push(parts[1]);
        words.push(parts[2]);
        words.push(parts[3]);
        i = i + 1;
        proof {
            let done = results@.subrange(0, i as int);
            assert(done.drop_last() =~= results@.subrange(0, i - 1));
            assert forall|k: int| 0 <= k < 5 * i implies #[trigger] words@[k] == flattened(
                done,
            )[k] by {
                if k < 5 * (i - 1) {
                    assert(words@[k] == before[k]);
                    assert(done[k / 5] == results@.subrange(0, i - 1)[k / 5]);
                } else {
                    assert(k / 5 == i - 1);
                    assert(done[k / 5] == result);
                }
            }
            assert(words@ =~= flattened(done));
        }
    }
    assert(results@.subrange(0, i as int) =~= results@);
    words
}

/// Candidate `i` of a range stands in the input buffer at bytes `16 i .. 16 i + 16`,
/// and reading them gives the candidate back.
pub proof fn lemma_input_record(start: u128, count: u32, i: int)
    requires
        range_fits(start, count),
        0 <= i < count,
    ensures
        input_bytes(start, count).len() == 16 * count,
        input_bytes(start, count).subrange(16 * i, 16 * i + 16) == bytes_of((start + i) as u128),
        value_of_bytes(input_bytes(start, count).subrange(16 * i, 16 * i + 16)) == start + i,
{
    let candidate = (start + i) as u128;
    let record = input_bytes(start, count).subrange(16 * i, 16 * i + 16);
    assert forall|k: int| 0 <= k < 16 implies #[trigger] record[k] == bytes_of(candidate)[k] by {
        assert((16 * i + k) / 16 == i);
        assert((16 * i + k) % 16 == k);
    }
    assert(record =~= bytes_of(candidate));
    lemma_value_round_trip(candidate);
}

/// Decoding gives one result for each candidate, in candidate order.
pub proof fn lemma_decoded_inputs(bytes: Seq<u8>, start: u128, count: u32)
    requires
        range_fits(start, count),
    ensures
        decoded(bytes, start, count).len() == count,
        forall|i: int|
            0 <= i < count ==> (#[trigger] decoded(bytes, start, count)[i]).input
                == candidates_from(start, count)[i],
{
}

/// Record `i` is decoded from bytes `32 i .. 32 i + 20` alone: two output buffers
/// that agree there give the same result, whatever their padding holds.
pub proof fn lemma_padding_ignored(a: Seq<u8>, b: Seq<u8>, start: u128, i: int)
    requires
        0 <= i,
        32 * i + 32 <= a.len(),
        32 * i + 32 <= b.len(),
        forall|k: int| 32 * i <= k < 32 * i + 20 ==> a[k] == b[k],
    ensures
        decoded_record(a, start, i) == decoded_record(b, start, i),
{
    assert(record_bytes(a, i) =~= record_bytes(b, i));
}

/// Two output buffers that agree on the first twenty bytes of every record hold
/// the same results for a range.
pub proof fn lemma_decoded_ignores_padding(a: Seq<u8>, b: Seq<u8>, start: u128, count: u32)
    requires
        forall|i: int| 0 <= i < count ==> #[trigger] record_bytes(a, i) == record_bytes(b, i),
    ensures
        decoded(a, start, count) == decoded(b, start, count),
{
    assert(decoded(a, start, count) =~= decoded(b, start, count));
}

/// The five flat words of result `i` are the five little-endian words that lead
/// record `i` of the output buffer.
pub proof fn lemma_flattened_words(bytes: Seq<u8>, start: u128, count: u32, i: int, k: int)
    requires
        bytes.len() == 32 * count,
        0 <= i < count,
        0 <= k < 5,
    ensures
        flattened(decoded(bytes, start, count)).len() == 5 * count,
        flattened(decoded(bytes, start, count))[5 * i + k] == word_of_bytes(
            bytes.subrange(32 * i + 4 * k, 32 * i + 4 * k + 4),
        ),
{
    let results = decoded(bytes, start, count);
    let record = record_bytes(bytes, i);
    assert((5 * i + k) / 5 == i && (5 * i + k) % 5 == k) by (nonlinear_arith)
        requires
            0 <= k < 5,
            0 <= i,
    ;
    lemma_word_of_bytes_bound(bytes.subrange(32 * i + 4 * k, 32 * i + 4 * k + 4));
    if k == 0 {
        assert(record.subrange(0, 4) =~= bytes.subrange(32 * i, 32 * i + 4));
    } else {
        let max_bytes = record.subrange(4, 20);
        let words = words_of_bytes(max_bytes);
        lemma_value_of_words_bound(words);
        lemma_words_round_trip_back(words);
        assert(words_of(results[i].max_value)[k - 1] == words[k - 1]);
        assert(max_bytes.subrange(4 * (k - 1), 4 * (k - 1) + 4) =~= bytes.subrange(
            32 * i + 4 * k,
            32 * i + 4 * k + 4,
        ));
    }
}

} // verus!
