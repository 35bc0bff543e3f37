use quic_decode::outcome::{DecodeOutcome, ParserErrorKind, QuicError};
use quic_decode::render::{render_detail, render_hex, render_outcome};

#[test]
fn unmatched_tag_renders_in_hex() {
    let s = render_detail(&QuicError::StreamTagNoMatch(0x2a));
    assert_eq!(s, "Could not match stream tag: 0x2a");
    assert!(s.ends_with("0x2a"));
}

#[test]
fn invalid_packet_renders_fixed_literal() {
    assert_eq!(render_detail(&QuicError::InvalidPacket), "Invalid packet");
}

#[test]
fn internal_failure_renders_with_prefix_and_kind() {
    assert_eq!(
        render_detail(&QuicError::InternalParseFailure(ParserErrorKind::ExpectedBytes)),
        "Internal parser error ExpectedBytes"
    );
    assert_eq!(
        render_detail(&QuicError::InternalParseFailure(ParserErrorKind::BadLengthPrefix)),
        "Internal parser error BadLengthPrefix"
    );
}

#[test]
fn need_more_data_renders_distinct_literal() {
    let r: DecodeOutcome<Vec<u8>> = DecodeOutcome::NeedMoreData;
    let msg = render_outcome(&r);
    assert_eq!(msg, "Incomplete data");
    let malformed = [
        QuicError::StreamTagNoMatch(0x2a),
        QuicError::InvalidPacket,
        QuicError::InternalParseFailure(ParserErrorKind::ExpectedBytes),
        QuicError::InternalParseFailure(ParserErrorKind::BadLengthPrefix),
    ];
    for e in malformed {
        assert_ne!(msg, render_detail(&e));
    }
}

#[test]
fn malformed_outcome_renders_its_detail() {
    let e = QuicError::StreamTagNoMatch(0x1f);
    let r: DecodeOutcome<Vec<u8>> = DecodeOutcome::Malformed(e);
    assert_eq!(render_outcome(&r), render_detail(&e));
}

#[test]
fn matched_outcome_renders_fixed_literal() {
    let rest: &[u8] = &[];
    let r: DecodeOutcome<Vec<u8>> = DecodeOutcome::Matched(vec![1], rest);
    assert_eq!(render_outcome(&r), "Matched");
}

#[test]
fn rendering_twice_gives_identical_strings() {
    let details = [
        QuicError::StreamTagNoMatch(0xdead),
        QuicError::InvalidPacket,
        QuicError::InternalParseFailure(ParserErrorKind::BadLengthPrefix),
    ];
    for e in details {
        assert_eq!(render_detail(&e), render_detail(&e));
    }
}

#[test]
fn hex_rendering_exact_values() {
    assert_eq!(render_hex(0x0), "0");
    assert_eq!(render_hex(0x9), "9");
    assert_eq!(render_hex(0xa), "a");
    assert_eq!(render_hex(0x10), "10");
    assert_eq!(render_hex(0x2a), "2a");
    assert_eq!(render_hex(0xdeadbeef), "deadbeef");
    assert_eq!(render_hex(u32::MAX), "ffffffff");
}
