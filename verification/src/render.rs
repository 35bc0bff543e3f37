use vstd::prelude::*;
use vstd::string::*;
use crate::outcome::{DecodeOutcome, ParserErrorKind, QuicError};

verus! {

/// The character for one hexadecimal digit value.
pub open spec fn spec_hex_digit(d: nat) -> char
    recommends
        d < 16,
{
    if d == 0 {
        '0'
    } else if d == 1 {
        '1'
    } else if d == 2 {
        '2'
    } else if d == 3 {
        '3'
    } else if d == 4 {
        '4'
    } else if d == 5 {
        '5'
    } else if d == 6 {
        '6'
    } else if d == 7 {
        '7'
    } else if d == 8 {
        '8'
    } else if d == 9 {
        '9'
    } else if d == 10 {
        'a'
    } else if d == 11 {
        'b'
    } else if d == 12 {
        'c'
    } else if d == 13 {
        'd'
    } else if d == 14 {
        'e'
    } else {
        'f'
    }
}

/// The hexadecimal rendering of a number, without leading zeros (a single
/// zero digit for zero itself).
pub open spec fn spec_hex(n: nat) -> Seq<char>
    decreases n,
{
    if n < 16 {
        seq![spec_hex_digit(n)]
    } else {
        spec_hex(n / 16) + seq![spec_hex_digit(n % 16)]
    }
}

/// The one-character string for one hexadecimal digit value.
fn hex_digit_str(d: u8) -> (s: &'static str)
    requires
        d < 16,
    ensures
        s@ == seq![spec_hex_digit(d as nat)],
{
    let s: &'static str = match d {
        0 => "0",
        1 => "1",
        2 => "2",
        3 => "3",
        4 => "4",
        5 => "5",
        6 => "6",
        7 => "7",
        8 => "8",
        9 => "9",
        10 => "a",
        11 => "b",
        12 => "c",
        13 => "d",
        14 => "e",
        _ => "f",
    };
    proof {
        reveal_strlit("0");
        reveal_strlit("1");
        reveal_strlit("2");
        reveal_strlit("3");
        reveal_strlit("4");
        reveal_strlit("5");
        reveal_strlit("6");
        reveal_strlit("7");
        reveal_strlit("8");
        reveal_strlit("9");
        reveal_strlit("a");
        reveal_strlit("b");
        reveal_strlit("c");
        reveal_strlit("d");
        reveal_strlit("e");
        reveal_strlit("f");
        assert(s@ =~= seq![spec_hex_digit(d as nat)]);
    }
    s
}

/// Renders a number in hexadecimal, matching `spec_hex` exactly.
pub fn render_hex(n: u32) -> (s: String)
    ensures
        s@ == spec_hex(n as nat),
    decreases n,
{
    if n < 16 {
        String::from_str(hex_digit_str(n as u8))
    } else {
        let mut s = render_hex(n / 16);
        s.append(hex_digit_str((n % 16) as u8));
        s
    }
}

/// The name of a primitive failure category, as rendering shows it.
pub open spec fn spec_kind_name(k: ParserErrorKind) -> Seq<char> {
    match k {
        ParserErrorKind::ExpectedBytes => "ExpectedBytes"@,
        ParserErrorKind::BadLengthPrefix => "BadLengthPrefix"@,
    }
}

/// The name of a primitive failure category.
pub fn kind_name(k: &ParserErrorKind) -> (s: &'static str)
    ensures
        s@ == spec_kind_name(*k),
{
    match k {
        ParserErrorKind::ExpectedBytes => "ExpectedBytes",
        ParserErrorKind::BadLengthPrefix => "BadLengthPrefix",
    }
}

/// The diagnostic message for a malformed-decode detail: an unmatched
/// stream tag shows the exact tag value in hexadecimal; an invalid packet
/// is a fixed literal; a wrapped primitive failure is prefixed to mark it
/// as an internal, lower-level cause, with its category kept visible.
pub open spec fn spec_render_detail(e: QuicError) -> Seq<char> {
    match e {
        QuicError::StreamTagNoMatch(tag) => "Could not match stream tag: 0x"@ + spec_hex(
            tag as nat,
        ),
        QuicError::InvalidPacket => "Invalid packet"@,
        QuicError::InternalParseFailure(k) => "Internal parser error "@ + spec_kind_name(k),
    }
}

/// The diagnostic message for any decode outcome. Needing more data is a
/// fixed literal distinct from every malformed message, so a log consumer
/// can tell "retry later" from "drop this input"; a match is a fixed
/// literal as well, since the decoded value itself goes to the caller,
/// not to the log.
pub open spec fn spec_render_outcome<T>(r: DecodeOutcome<T>) -> Seq<char> {
    match r {
        DecodeOutcome::NeedMoreData => "Incomplete data"@,
        DecodeOutcome::Malformed(e) => spec_render_detail(e),
        DecodeOutcome::Matched(_, _) => "Matched"@,
    }
}

/// Renders a malformed-decode detail, matching `spec_render_detail`
/// exactly: a pure function of the detail alone.
pub fn render_detail(e: &QuicError) -> (s: String)
    ensures
        s@ == spec_render_detail(*e),
{
    match e {
        QuicError::StreamTagNoMatch(tag) => {
            let mut s = String::from_str("Could not match stream tag: 0x");
            let digits = render_hex(*tag);
            s.append(digits.as_str());
            s
        },
        QuicError::InvalidPacket => String::from_str("Invalid packet"),
        QuicError::InternalParseFailure(k) => {
            let mut s = String::from_str("Internal parser error ");
            s.append(kind_name(k));
            s
        },
    }
}

/// Renders any decode outcome, matching `spec_render_outcome` exactly:
/// a pure function of the outcome alone.
pub fn render_outcome<T>(r: &DecodeOutcome<T>) -> (s: String)
    ensures
        s@ == spec_render_outcome(*r),
{
    match r {
        DecodeOutcome::NeedMoreData => String::from_str("Incomplete data"),
        DecodeOutcome::Malformed(e) => render_detail(e),
        DecodeOutcome::Matched(_, _) => String::from_str("Matched"),
    }
}

/// Rendering is deterministic: the message is a function of the detail
/// alone, with no hidden state, so rendering the same detail twice gives
/// identical strings. Together with the exact contract of
/// `render_detail`, any two renderings of equal details are view-equal.
pub proof fn lemma_render_deterministic(e1: QuicError, e2: QuicError)
    requires
        e1 == e2,
    ensures
        spec_render_detail(e1) == spec_render_detail(e2),
{
}

/// The needing-more-data message collides with no malformed message: a
/// log consumer that sees "Incomplete data" can always tell a retryable
/// short read apart from a terminally malformed input.
pub proof fn lemma_need_more_data_message_distinct(e: QuicError)
    ensures
        "Incomplete data"@ != spec_render_detail(e),
{
    reveal_strlit("Incomplete data");
    match e {
        QuicError::StreamTagNoMatch(tag) => {
            reveal_strlit("Could not match stream tag: 0x");
            let m = "Could not match stream tag: 0x"@ + spec_hex(tag as nat);
            assert(m[0] == 'C');
            assert("Incomplete data"@[0] == 'I');
        },
        QuicError::InvalidPacket => {
            reveal_strlit("Invalid packet");
            assert("Incomplete data"@.len() != "Invalid packet"@.len());
        },
        QuicError::InternalParseFailure(k) => {
            reveal_strlit("Internal parser error ");
            let m = "Internal parser error "@ + spec_kind_name(k);
            assert(m[2] == 't');
            assert("Incomplete data"@[2] == 'c');
        },
    }
}

} // verus!
