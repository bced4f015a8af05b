use gpu_collatz::layout::{
    decode_results, encode_input, input_size, output_size, result_words, ComputeResult,
    INPUT_RECORD_BYTES, OUTPUT_RECORD_BYTES, RESULT_BYTES,
};
use gpu_collatz::range::CandidateRange;

fn record(steps: u32, max_value: u128, padding: u8) -> Vec<u8> {
    let mut bytes = Vec::new();
    bytes.extend_from_slice(&steps.to_le_bytes());
    bytes.extend_from_slice(&max_value.to_le_bytes());
    bytes.extend_from_slice(&[padding; 12]);
    bytes
}

#[test]
fn a_record_is_sixteen_bytes_in_and_thirty_two_out() {
    assert_eq!(INPUT_RECORD_BYTES, 16);
    assert_eq!(OUTPUT_RECORD_BYTES, 32);
    assert_eq!(RESULT_BYTES, 20);
}

#[test]
fn buffer_sizes_are_sixteen_and_thirty_two_bytes_a_candidate() {
    assert_eq!(input_size(0), 0);
    assert_eq!(output_size(0), 0);
    assert_eq!(input_size(5), 80);
    assert_eq!(output_size(5), 160);
    assert_eq!(input_size(50_000), 800_000);
    assert_eq!(output_size(50_000), 1_600_000);
    assert_eq!(output_size(1_000_000), 32_000_000);
    assert_eq!(input_size(u32::MAX), 68_719_476_720);
    assert_eq!(output_size(u32::MAX), 137_438_953_440);
}

#[test]
fn input_holds_the_candidates_in_order() {
    let range = CandidateRange::new(0x0102_0304, 2).unwrap();
    let bytes = encode_input(&range);
    assert_eq!(
        bytes,
        vec![
            4, 3, 2, 1, 0, 0, 0, 0, 0, 0, 0, 0, 0, 0, 0, 0, 5, 3, 2, 1, 0, 0, 0, 0, 0, 0, 0, 0, 0,
            0, 0, 0
        ]
    );
}

#[test]
fn input_of_a_large_range_matches_the_standard_form() {
    let start: u128 = (1u128 << 100) + 0xffff_fff0;
    let range = CandidateRange::new(start, 40).unwrap();
    let bytes = encode_input(&range);
    assert_eq!(bytes.len() as u64, input_size(40));
    for i in 0..40usize {
        assert_eq!(bytes[16 * i..16 * i + 16], (start + i as u128).to_le_bytes());
    }
}

#[test]
fn input_of_an_empty_range_is_empty() {
    assert!(encode_input(&CandidateRange::new(7, 0).unwrap()).is_empty());
}

#[test]
fn records_are_decoded_in_candidate_order() {
    let range = CandidateRange::new(6, 2).unwrap();
    let mut bytes = record(8, 16, 0);
    bytes.extend(record(16, 52, 0));
    assert_eq!(
        decode_results(&bytes, &range),
        Some(vec![
            ComputeResult { input: 6, steps: 8, max_value: 16 },
            ComputeResult { input: 7, steps: 16, max_value: 52 },
        ])
    );
}

#[test]
fn padding_is_ignored() {
    let range = CandidateRange::new(27, 1).unwrap();
    let clean = decode_results(&record(111, 9232, 0), &range);
    let dirty = decode_results(&record(111, 9232, 0xff), &range);
    assert_eq!(clean, dirty);
    assert_eq!(dirty, Some(vec![ComputeResult { input: 27, steps: 111, max_value: 9232 }]));
}

#[test]
fn the_largest_fields_are_decoded() {
    let range = CandidateRange::new(u128::MAX, 1).unwrap();
    assert_eq!(
        decode_results(&record(u32::MAX, u128::MAX, 0x5a), &range),
        Some(vec![ComputeResult { input: u128::MAX, steps: u32::MAX, max_value: u128::MAX }])
    );
}

#[test]
fn a_range_of_the_wrong_length_is_not_decoded() {
    let range = CandidateRange::new(1, 2).unwrap();
    assert_eq!(decode_results(&[0u8; 63], &range), None);
    assert_eq!(decode_results(&[0u8; 65], &range), None);
    assert_eq!(decode_results(&[0u8; 32], &range), None);
    assert_eq!(decode_results(&[0u8; 40], &range), None);
    assert_eq!(decode_results(&[], &range), None);
    assert_eq!(decode_results(&[0u8; 64], &range).map(|r| r.len()), Some(2));
}

#[test]
fn an_empty_range_decodes_to_nothing() {
    let range = CandidateRange::new(1, 0).unwrap();
    assert_eq!(decode_results(&[], &range), Some(vec![]));
    assert_eq!(decode_results(&[0u8; 32], &range), None);
}

#[test]
fn results_flatten_to_five_words_each() {
    let results = [
        ComputeResult { input: 6, steps: 8, max_value: 16 },
        ComputeResult { input: 7, steps: 16, max_value: (1u128 << 96) + (3u128 << 32) + 2 },
    ];
    assert_eq!(result_words(&results), vec![8, 16, 0, 0, 0, 16, 2, 3, 0, 1]);
    assert_eq!(result_words(&[]), Vec::<u32>::new());
}

#[test]
fn flat_words_are_the_leading_words_of_each_record() {
    let range = CandidateRange::new(100, 3).unwrap();
    let mut bytes = Vec::new();
    for i in 0..96u32 {
        bytes.push((i * 7 + 3) as u8);
    }
    let words = result_words(&decode_results(&bytes, &range).unwrap());
    assert_eq!(words.len(), 15);
    for i in 0..3 {
        for k in 0..5 {
            let at = 32 * i + 4 * k;
            let expected =
                u32::from_le_bytes([bytes[at], bytes[at + 1], bytes[at + 2], bytes[at + 3]]);
            assert_eq!(words[5 * i + k], expected);
        }
    }
}

#[test]
fn encoded_input_reads_back_as_the_candidates() {
    let range = CandidateRange::new(u128::MAX - 9, 10).unwrap();
    let bytes = encode_input(&range);
    let all = range.candidates();
    for i in 0..10usize {
        let mut record = [0u8; 16];
        record.copy_from_slice(&bytes[16 * i..16 * i + 16]);
        assert_eq!(u128::from_le_bytes(record), all[i]);
    }
}
