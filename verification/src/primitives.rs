use vstd::prelude::*;
use vstd::slice::slice_to_vec;
use crate::decoder::Decoder;
use crate::outcome::{DecodeOutcome, ParserErrorKind, QuicError, SpecOutcome, wrap_parser_failure};

verus! {

/// The primitive field decoders of the grammar's lowest layer. Each reads
/// a short prefix of the input and yields the field's bytes. A buffer too
/// short for the field needs more data; bytes that are present but break
/// the field's rule are malformed, with the failure category preserved.
#[derive(Clone, Copy, Debug, PartialEq, Eq, Structural)]
pub enum FieldDecoder {
    /// Exactly this many bytes, returned as the value.
    Fixed(usize),
    /// A one-byte length prefix, then that many bytes as the value. A
    /// prefix above the given bound is a bad length prefix.
    LengthPrefixed(u8),
    /// A single byte that must equal the given literal.
    Literal(u8),
}

/// What `FieldDecoder::Fixed(n)` returns on any input.
pub open spec fn fixed_model(n: nat, input: Seq<u8>) -> SpecOutcome<Seq<u8>> {
    if input.len() < n {
        SpecOutcome::NeedMoreData
    } else {
        SpecOutcome::Matched(input.take(n as int), input.skip(n as int))
    }
}

/// What `FieldDecoder::LengthPrefixed(bound)` returns on any input.
pub open spec fn length_prefixed_model(bound: u8, input: Seq<u8>) -> SpecOutcome<Seq<u8>> {
    if input.len() < 1 {
        SpecOutcome::NeedMoreData
    } else if input[0] > bound {
        SpecOutcome::Malformed(QuicError::InternalParseFailure(ParserErrorKind::BadLengthPrefix))
    } else if input.len() < 1 + input[0] {
        SpecOutcome::NeedMoreData
    } else {
        SpecOutcome::Matched(
            input.subrange(1, 1 + input[0] as int),
            input.skip(1 + input[0] as int),
        )
    }
}

/// What `FieldDecoder::Literal(b)` returns on any input.
pub open spec fn literal_model(b: u8, input: Seq<u8>) -> SpecOutcome<Seq<u8>> {
    if input.len() < 1 {
        SpecOutcome::NeedMoreData
    } else if input[0] == b {
        SpecOutcome::Matched(seq![b], input.skip(1))
    } else {
        SpecOutcome::Malformed(QuicError::InternalParseFailure(ParserErrorKind::ExpectedBytes))
    }
}

impl Decoder for FieldDecoder {
    type Value = Vec<u8>;

    open spec fn model(&self, input: Seq<u8>) -> SpecOutcome<Seq<u8>> {
        match *self {
            FieldDecoder::Fixed(n) => fixed_model(n as nat, input),
            FieldDecoder::LengthPrefixed(bound) => length_prefixed_model(bound, input),
            FieldDecoder::Literal(b) => literal_model(b, input),
        }
    }

    fn decode<'a>(&self, input: &'a [u8]) -> (r: DecodeOutcome<'a, Vec<u8>>) {
        match *self {
            FieldDecoder::Fixed(n) => {
                if input.len() < n {
                    DecodeOutcome::NeedMoreData
                } else {
                    let v = slice_to_vec(&input[0..n]);
                    let rest: &[u8] = &input[n..input.len()];
                    proof {
                        assert(v.deep_view() =~= input@.take(n as int));
                        assert(rest@ =~= input@.skip(n as int));
                    }
                    DecodeOutcome::Matched(v, rest)
                }
            },
            FieldDecoder::LengthPrefixed(bound) => {
                if input.len() < 1 {
                    DecodeOutcome::NeedMoreData
                } else {
                    let len_byte = input[0];
                    if len_byte > bound {
                        DecodeOutcome::Malformed(
                            wrap_parser_failure(ParserErrorKind::BadLengthPrefix),
                        )
                    } else {
                        let need: usize = 1 + len_byte as usize;
                        if input.len() < need {
                            DecodeOutcome::NeedMoreData
                        } else {
                            let v = slice_to_vec(&input[1..need]);
                            let rest: &[u8] = &input[need..input.len()];
                            proof {
                                assert(v.deep_view() =~= input@.subrange(1, 1 + input@[0] as int));
                                assert(rest@ =~= input@.skip(1 + input@[0] as int));
                            }
                            DecodeOutcome::Matched(v, rest)
                        }
                    }
                }
            },
            FieldDecoder::Literal(b) => {
                if input.len() < 1 {
                    DecodeOutcome::NeedMoreData
                } else if input[0] == b {
                    let mut v: Vec<u8> = Vec::new();
                    v.push(b);
                    let rest: &[u8] = &input[1..input.len()];
                    proof {
                        assert(v.deep_view() =~= seq![b]);
                        assert(rest@ =~= input@.skip(1));
                    }
                    DecodeOutcome::Matched(v, rest)
                } else {
                    DecodeOutcome::Malformed(
                        wrap_parser_failure(ParserErrorKind::ExpectedBytes),
                    )
                }
            },
        }
    }
}

} // verus!
