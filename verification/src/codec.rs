//! Wide-integer codec: an unsigned 128-bit value as four 32-bit words, least
//! significant word first, and as sixteen bytes, least significant byte first.

use vstd::prelude::*;

verus! {

/// The 32-bit word of `v` at position `i`, position 0 being the least significant.
pub open spec fn word_at(v: u128, i: int) -> u32 {
    if i == 0 {
        (v % 0x1_0000_0000) as u32
    } else if i == 1 {
        ((v / 0x1_0000_0000) % 0x1_0000_0000) as u32
    } else if i == 2 {
        ((v / 0x1_0000_0000_0000_0000) % 0x1_0000_0000) as u32
    } else {
        (v / 0x1_0000_0000_0000_0000_0000_0000) as u32
    }
}

/// The four words of `v`, least significant first.
pub open spec fn words_of(v: u128) -> Seq<u32> {
    seq![word_at(v, 0), word_at(v, 1), word_at(v, 2), word_at(v, 3)]
}

/// The number that four words stand for, the first word being the least significant.
pub open spec fn value_of_words(words: Seq<u32>) -> int {
    words[0] + words[1] * 0x1_0000_0000 + words[2] * 0x1_0000_0000_0000_0000 + words[3]
        * 0x1_0000_0000_0000_0000_0000_0000
}

/// The byte of `w` at position `j`, position 0 being the least significant.
pub open spec fn byte_at(w: u32, j: int) -> u8 {
    if j == 0 {
        (w % 0x100) as u8
    } else if j == 1 {
        ((w / 0x100) % 0x100) as u8
    } else if j == 2 {
        ((w / 0x1_0000) % 0x100) as u8
    } else {
        (w / 0x100_0000) as u8
    }
}

/// The word that four bytes stand for, the first byte being the least significant.
pub open spec fn word_of_bytes(bytes: Seq<u8>) -> int {
    bytes[0] + bytes[1] * 0x100 + bytes[2] * 0x1_0000 + bytes[3] * 0x100_0000
}

/// Sixteen bytes for four words: word `k / 4` gives byte `k`, low byte first.
pub open spec fn bytes_of_words(words: Seq<u32>) -> Seq<u8> {
    Seq::new(16, |k: int| byte_at(words[k / 4], k % 4))
}

/// Four words for sixteen bytes: bytes `4 i .. 4 i + 4` give word `i`.
pub open spec fn words_of_bytes(bytes: Seq<u8>) -> Seq<u32> {
    Seq::new(4, |i: int| word_of_bytes(bytes.subrange(4 * i, 4 * i + 4)) as u32)
}

/// The sixteen little-endian bytes of `v`.
pub open spec fn bytes_of(v: u128) -> Seq<u8> {
    bytes_of_words(words_of(v))
}

/// The 128-bit number that sixteen little-endian bytes stand for.
pub open spec fn value_of_bytes(bytes: Seq<u8>) -> int {
    value_of_words(words_of_bytes(bytes))
}

/// Four words always stand for a number that fits in 128 bits.
pub proof fn lemma_value_of_words_bound(words: Seq<u32>)
    requires
        words.len() == 4,
    ensures
        0 <= value_of_words(words) <= u128::MAX,
{
}

/// Four bytes always stand for a number that fits in 32 bits.
pub proof fn lemma_word_of_bytes_bound(bytes: Seq<u8>)
    requires
        bytes.len() == 4,
    ensures
        0 <= word_of_bytes(bytes) <= u32::MAX,
{
}

/// Splits a 128-bit value into four 32-bit words, least significant first.
pub fn u128_to_u32_array(n: u128) -> (words: [u32; 4])
    ensures
        words@ == words_of(n),
{
    let w0: u32 = (n & 0xFFFF_FFFF) as u32;
    let w1: u32 = ((n >> 32) & 0xFFFF_FFFF) as u32;
    let w2: u32 = ((n >> 64) & 0xFFFF_FFFF) as u32;
    let w3: u32 = ((n >> 96) & 0xFFFF_FFFF) as u32;
    proof {
        assert((n & 0xFFFF_FFFF) as u32 == (n % 0x1_0000_0000) as u32) by (bit_vector);
        assert(((n >> 32) & 0xFFFF_FFFF) as u32 == ((n / 0x1_0000_0000) % 0x1_0000_0000) as u32)
            by (bit_vector);
        assert(((n >> 64) & 0xFFFF_FFFF) as u32 == ((n / 0x1_0000_0000_0000_0000)
            % 0x1_0000_0000) as u32) by (bit_vector);
        assert(((n >> 96) & 0xFFFF_FFFF) as u32 == (n / 0x1_0000_0000_0000_0000_0000_0000) as u32)
            by (bit_vector);
    }
    let words: [u32; 4] = [w0, w1, w2, w3];
    assert(words@ =~= words_of(n));
    words
}

/// Joins four 32-bit words, least significant first, into a 128-bit value.
pub fn u32_array_to_u128(parts: &[u32; 4]) -> (v: u128)
    ensures
        v == value_of_words(parts@),
{
    let a: u32 = parts[0];
    let b: u32 = parts[1];
    let c: u32 = parts[2];
    let d: u32 = parts[3];
    proof {
        assert((a as u128) | ((b as u128) << 32) | ((c as u128) << 64) | ((d as u128) << 96) == a
            + b * 0x1_0000_0000 + c * 0x1_0000_0000_0000_0000 + d
            * 0x1_0000_0000_0000_0000_0000_0000) by (bit_vector);
    }
    (a as u128) | ((b as u128) << 32) | ((c as u128) << 64) | ((d as u128) << 96)
}

/// Writes four 32-bit words as sixteen bytes, each word low byte first.
pub fn u32_array_to_bytes(parts: &[u32; 4]) -> (bytes: [u8; 16])
    ensures
        bytes@ == bytes_of_words(parts@),
{
    let mut bytes: [u8; 16] = [0u8; 16];
    let mut i: usize = 0;
    while i < 4
        invariant
            i <= 4,
            forall|k: int| 0 <= k < 4 * i ==> bytes@[k] == byte_at(parts@[k / 4], k % 4),
        decreases 4 - i,
    {
        let part: u32 = parts[i];
        proof {
            assert((part & 0xFF) as u8 == (part % 0x100) as u8) by (bit_vector);
            assert(((part >> 8) & 0xFF) as u8 == ((part / 0x100) % 0x100) as u8) by (bit_vector);
            assert(((part >> 16) & 0xFF) as u8 == ((part / 0x1_0000) % 0x100) as u8)
                by (bit_vector);
            assert(((part >> 24) & 0xFF) as u8 == (part / 0x100_0000) as u8) by (bit_vector);
        }
        bytes[4 * i] = (part & 0xFF) as u8;
        bytes[4 * i + 1] = ((part >> 8) & 0xFF) as u8;
        bytes[4 * i + 2] = ((part >> 16) & 0xFF) as u8;
        bytes[4 * i + 3] = ((part >> 24) & 0xFF) as u8;
        i = i + 1;
    }
    assert(bytes@ =~= bytes_of_words(parts@));
    bytes
}

/// Reads the 32-bit word that stands in `bytes` at `at`, low byte first.
pub fn read_word(bytes: &[u8], at: usize) -> (w: u32)
    requires
        at + 4 <= bytes@.len(),
    ensures
        w == word_of_bytes(bytes@.subrange(at as int, at + 4)),
{
    let a: u8 = bytes[at];
    let b: u8 = bytes[at + 1];
    let c: u8 = bytes[at + 2];
    let d: u8 = bytes[at + 3];
    proof {
        assert((a as u32) | ((b as u32) << 8) | ((c as u32) << 16) | ((d as u32) << 24) == a + b
            * 0x100 + c * 0x1_0000 + d * 0x100_0000) by (bit_vector);
    }
    (a as u32) | ((b as u32) << 8) | ((c as u32) << 16) | ((d as u32) << 24)
}

/// Reads sixteen bytes as four 32-bit words, each word low byte first.
pub fn bytes_to_u32_array(bytes: &[u8; 16]) -> (words: [u32; 4])
    ensures
        words@ == words_of_bytes(bytes@),
{
    let w0: u32 = read_word(bytes.as_slice(), 0);
    let w1: u32 = read_word(bytes.as_slice(), 4);
    let w2: u32 = read_word(bytes.as_slice(), 8);
    let w3: u32 = read_word(bytes.as_slice(), 12);
    let words: [u32; 4] = [w0, w1, w2, w3];
    assert(words@ =~= words_of_bytes(bytes@));
    words
}

/// Splitting a value into words and joining them again gives the value back.
pub proof fn lemma_words_round_trip(v: u128)
    ensures
        words_of(v).len() == 4,
        value_of_words(words_of(v)) == v,
{
    assert((v % 0x1_0000_0000) as u32 + ((v / 0x1_0000_0000) % 0x1_0000_0000) as u32
        * 0x1_0000_0000 + ((v / 0x1_0000_0000_0000_0000) % 0x1_0000_0000) as u32
        * 0x1_0000_0000_0000_0000 + (v / 0x1_0000_0000_0000_0000_0000_0000) as u32
        * 0x1_0000_0000_0000_0000_0000_0000 == v) by (bit_vector);
}

/// Joining four words and splitting the value again gives the words back.
pub proof fn lemma_words_round_trip_back(words: Seq<u32>)
    requires
        words.len() == 4,
    ensures
        words_of(value_of_words(words) as u128) == words,
{
    let a = words[0];
    let b = words[1];
    let c = words[2];
    let d = words[3];
    let v = value_of_words(words) as u128;
    assert(v == a + b * 0x1_0000_0000 + c * 0x1_0000_0000_0000_0000 + d
        * 0x1_0000_0000_0000_0000_0000_0000);
    assert((v % 0x1_0000_0000) as u32 == a && ((v / 0x1_0000_0000) % 0x1_0000_0000) as u32 == b
        && ((v / 0x1_0000_0000_0000_0000) % 0x1_0000_0000) as u32 == c && (v
        / 0x1_0000_0000_0000_0000_0000_0000) as u32 == d) by (bit_vector)
        requires
            v == a + b * 0x1_0000_0000 + c * 0x1_0000_0000_0000_0000 + d
                * 0x1_0000_0000_0000_0000_0000_0000,
    ;
    assert(words_of(v) =~= words);
}

/// Splitting a word into bytes and joining them again gives the word back.
pub proof fn lemma_word_bytes_round_trip(w: u32)
    ensures
        word_of_bytes(seq![byte_at(w, 0), byte_at(w, 1), byte_at(w, 2), byte_at(w, 3)]) == w,
{
    assert((w % 0x100) as u8 + ((w / 0x100) % 0x100) as u8 * 0x100 + ((w / 0x1_0000) % 0x100) as u8
        * 0x1_0000 + (w / 0x100_0000) as u8 * 0x100_0000 == w) by (bit_vector);
}

/// Joining four bytes and splitting the word again gives the bytes back.
pub proof fn lemma_word_bytes_round_trip_back(bytes: Seq<u8>)
    requires
        bytes.len() == 4,
    ensures
        forall|j: int| 0 <= j < 4 ==> byte_at(word_of_bytes(bytes) as u32, j) == bytes[j],
{
    let a = bytes[0];
    let b = bytes[1];
    let c = bytes[2];
    let d = bytes[3];
    let w = word_of_bytes(bytes) as u32;
    assert(w == a + b * 0x100 + c * 0x1_0000 + d * 0x100_0000);
    assert((w % 0x100) as u8 == a && ((w / 0x100) % 0x100) as u8 == b && ((w / 0x1_0000)
        % 0x100) as u8 == c && (w / 0x100_0000) as u8 == d) by (bit_vector)
        requires
            w == a + b * 0x100 + c * 0x1_0000 + d * 0x100_0000,
    ;
}

/// Writing four words as bytes and reading them again gives the words back.
pub proof fn lemma_bytes_round_trip(words: Seq<u32>)
    requires
        words.len() == 4,
    ensures
        bytes_of_words(words).len() == 16,
        words_of_bytes(bytes_of_words(words)) == words,
{
    let bytes = bytes_of_words(words);
    assert forall|i: int| 0 <= i < 4 implies #[trigger] words_of_bytes(bytes)[i] == words[i] by {
        let w = words[i];
        lemma_word_bytes_round_trip(w);
        assert(bytes.subrange(4 * i, 4 * i + 4) =~= seq![
            byte_at(w, 0),
            byte_at(w, 1),
            byte_at(w, 2),
            byte_at(w, 3),
        ]);
    }
    assert(words_of_bytes(bytes) =~= words);
}

/// Reading sixteen bytes as words and writing them again gives the bytes back.
pub proof fn lemma_bytes_round_trip_back(bytes: Seq<u8>)
    requires
        bytes.len() == 16,
    ensures
        words_of_bytes(bytes).len() == 4,
        bytes_of_words(words_of_bytes(bytes)) == bytes,
{
    let words = words_of_bytes(bytes);
    assert forall|k: int| 0 <= k < 16 implies #[trigger] bytes_of_words(words)[k] == bytes[k] by {
        let i = k / 4;
        let part = bytes.subrange(4 * i, 4 * i + 4);
        lemma_word_bytes_round_trip_back(part);
        assert(part[k % 4] == bytes[k]);
    }
    assert(bytes_of_words(words) =~= bytes);
}

/// Every 128-bit value, zero and the largest included, comes back unchanged from
/// its sixteen bytes.
pub proof fn lemma_value_round_trip(v: u128)
    ensures
        bytes_of(v).len() == 16,
        value_of_bytes(bytes_of(v)) == v,
{
    lemma_words_round_trip(v);
    lemma_bytes_round_trip(words_of(v));
}

/// Every sixteen bytes come back unchanged from the value they stand for.
pub proof fn lemma_value_round_trip_back(bytes: Seq<u8>)
    requires
        bytes.len() == 16,
    ensures
        0 <= value_of_bytes(bytes) <= u128::MAX,
        bytes_of(value_of_bytes(bytes) as u128) == bytes,
{
    lemma_bytes_round_trip_back(bytes);
    lemma_words_round_trip_back(words_of_bytes(bytes));
}

} // verus!
