use quic_decode::decoder::{Candidate, Decoder};
use quic_decode::dispatch::{dispatch, read_tag, tags_distinct};
use quic_decode::outcome::{DecodeOutcome, ParserErrorKind, QuicError};
use quic_decode::primitives::FieldDecoder;

fn two_candidates() -> Vec<Candidate<FieldDecoder>> {
    vec![
        Candidate { tag: 0x01, decoder: FieldDecoder::Fixed(1) },
        Candidate { tag: 0x02, decoder: FieldDecoder::Fixed(2) },
    ]
}

#[test]
fn short_input_needs_more_data_never_malformed() {
    let cands = two_candidates();
    let empty: &[u8] = &[];
    let r = dispatch(&cands, empty);
    assert!(r.is_need_more_data());
    assert!(!r.is_malformed());
    assert_eq!(r, DecodeOutcome::NeedMoreData);
}

#[test]
fn matching_tag_passes_through_candidate_outcome() {
    let cands = two_candidates();
    let input: &[u8] = &[0x02, 9, 9];
    let payload: &[u8] = &[9, 9];
    let direct = FieldDecoder::Fixed(2).decode(payload);
    let dispatched = dispatch(&cands, input);
    assert_eq!(dispatched, direct);
    assert_eq!(dispatched, DecodeOutcome::Matched(vec![9, 9], &[][..]));
}

#[test]
fn matched_payload_consumed_entirely() {
    let cands = two_candidates();
    let input: &[u8] = &[0x02, 9, 9];
    match dispatch(&cands, input) {
        DecodeOutcome::Matched(v, rest) => {
            assert_eq!(v, vec![9, 9]);
            assert!(rest.is_empty());
        },
        other => panic!("expected a match, got {:?}", other),
    }
}

#[test]
fn unmatched_tag_reports_exact_value() {
    let cands = two_candidates();
    let input: &[u8] = &[0x03, 9, 9];
    let r = dispatch(&cands, input);
    assert_eq!(r, DecodeOutcome::Malformed(QuicError::StreamTagNoMatch(0x03)));
}

#[test]
fn unmatched_tag_is_order_independent() {
    let forward = two_candidates();
    let backward = vec![
        Candidate { tag: 0x02, decoder: FieldDecoder::Fixed(2) },
        Candidate { tag: 0x01, decoder: FieldDecoder::Fixed(1) },
    ];
    let input: &[u8] = &[0x03, 9];
    assert_eq!(dispatch(&forward, input), dispatch(&backward, input));
    assert_eq!(
        dispatch(&backward, input),
        DecodeOutcome::Malformed(QuicError::StreamTagNoMatch(0x03))
    );
}

#[test]
fn tag_only_input_defers_to_candidate() {
    let cands = two_candidates();
    let input: &[u8] = &[0x02];
    let r = dispatch(&cands, input);
    assert_eq!(r, DecodeOutcome::NeedMoreData);
}

#[test]
fn empty_candidate_list_reports_tag_no_match() {
    let cands: Vec<Candidate<FieldDecoder>> = vec![];
    let input: &[u8] = &[0x07];
    let r = dispatch(&cands, input);
    assert_eq!(r, DecodeOutcome::Malformed(QuicError::StreamTagNoMatch(0x07)));
}

#[test]
fn first_match_wins_on_duplicate_tags() {
    let cands = vec![
        Candidate { tag: 0x05, decoder: FieldDecoder::Fixed(1) },
        Candidate { tag: 0x05, decoder: FieldDecoder::Fixed(2) },
    ];
    let input: &[u8] = &[0x05, 8, 8];
    let r = dispatch(&cands, input);
    assert_eq!(r, DecodeOutcome::Matched(vec![8], &[8][..]));
}

#[test]
fn candidate_failure_detail_passes_through_unchanged() {
    let cands = vec![Candidate { tag: 0x09, decoder: FieldDecoder::Literal(0xAB) }];
    let input: &[u8] = &[0x09, 0xCD];
    let r = dispatch(&cands, input);
    assert_eq!(
        r,
        DecodeOutcome::Malformed(QuicError::InternalParseFailure(ParserErrorKind::ExpectedBytes))
    );
}

#[test]
fn read_tag_reads_first_byte() {
    let input: &[u8] = &[0x2a, 0xFF];
    assert_eq!(read_tag(input), 0x2a);
}

#[test]
fn duplicate_tags_fail_fast_at_construction() {
    let dup = vec![
        Candidate { tag: 0x01, decoder: FieldDecoder::Fixed(1) },
        Candidate { tag: 0x02, decoder: FieldDecoder::Fixed(1) },
        Candidate { tag: 0x01, decoder: FieldDecoder::Fixed(2) },
    ];
    assert!(!tags_distinct(&dup));
    assert!(tags_distinct(&two_candidates()));
    let empty: Vec<Candidate<FieldDecoder>> = vec![];
    assert!(tags_distinct(&empty));
}
