use vstd::prelude::*;

verus! {

/// The closed set of primitive-decoder failure categories. A low-level
/// byte-consuming primitive that fails reports one of these kinds, and the
/// kind is carried through unchanged so that the root cause stays visible
/// during triage.
#[derive(Clone, Copy, Debug, PartialEq, Eq, Structural)]
pub enum ParserErrorKind {
    /// The bytes present do not hold the value the primitive demanded.
    ExpectedBytes,
    /// A length prefix names a length the grammar does not allow.
    BadLengthPrefix,
}

/// The detail carried by a malformed decode: why this input is terminally
/// invalid. An unmatched stream tag records the exact discriminant read so
/// that operators can see which unsupported tag was encountered.
#[derive(Clone, Copy, Debug, PartialEq, Eq, Structural)]
pub enum QuicError {
    /// The discriminant read from the input selects no candidate decoder.
    StreamTagNoMatch(u32),
    /// The bytes are semantically invalid for the grammar as a whole.
    InvalidPacket,
    /// A lower-level primitive failed; its category is kept, not erased.
    InternalParseFailure(ParserErrorKind),
}

/// The three-way result of one decode attempt. `NeedMoreData` carries no
/// partial value: the caller buffers more bytes and retries. `Malformed` is
/// terminal for this input. `Matched` hands back the decoded value and a
/// non-owning view of the unconsumed remainder of the input.
#[derive(Debug, PartialEq, Eq)]
pub enum DecodeOutcome<'a, T> {
    NeedMoreData,
    Malformed(QuicError),
    Matched(T, &'a [u8]),
}

/// The mathematical shape of a decode outcome: as `DecodeOutcome`, with
/// the value at its abstract type and the remainder as the sequence of
/// bytes it views rather than a borrowed slice. Contracts state what a
/// decoder returns in terms of this type.
pub enum SpecOutcome<T> {
    NeedMoreData,
    Malformed(QuicError),
    Matched(T, Seq<u8>),
}

/// An executable outcome realises a mathematical one: same variant, same
/// detail, the value abstracts to the stated one, and the remainder slice
/// views the stated byte sequence.
pub open spec fn outcome_models<T: DeepView>(
    r: DecodeOutcome<T>,
    m: SpecOutcome<T::V>,
) -> bool {
    match r {
        DecodeOutcome::NeedMoreData => m is NeedMoreData,
        DecodeOutcome::Malformed(e) => m matches SpecOutcome::Malformed(e2) && e == e2,
        DecodeOutcome::Matched(v, rest) => m matches SpecOutcome::Matched(v2, rest2)
            && v.deep_view() == v2 && rest@ == rest2,
    }
}

/// The explicit adapter at the boundary between low-level primitives and
/// the outcome model: a primitive's failure category becomes a malformed
/// detail that wraps the category unchanged, never reinterpreted.
pub fn wrap_parser_failure(kind: ParserErrorKind) -> (e: QuicError)
    ensures
        e == QuicError::InternalParseFailure(kind),
{
    QuicError::InternalParseFailure(kind)
}

impl<'a, T> DecodeOutcome<'a, T> {
    /// A retryable outcome: the caller buffers more bytes and retries.
    pub fn is_need_more_data(&self) -> (b: bool)
        ensures
            b == (*self is NeedMoreData),
    {
        match self {
            DecodeOutcome::NeedMoreData => true,
            _ => false,
        }
    }

    /// A terminal failure for this input: the caller drops or flags it.
    pub fn is_malformed(&self) -> (b: bool)
        ensures
            b == (*self is Malformed),
    {
        match self {
            DecodeOutcome::Malformed(_) => true,
            _ => false,
        }
    }
}

/// Two executable outcomes agree up to abstraction: same variant, same
/// detail, and values and remainder slices with equal views.
pub open spec fn outcome_equiv<T: DeepView>(r1: DecodeOutcome<T>, r2: DecodeOutcome<T>) -> bool {
    match r1 {
        DecodeOutcome::NeedMoreData => r2 is NeedMoreData,
        DecodeOutcome::Malformed(e1) => r2 matches DecodeOutcome::Malformed(e2) && e1 == e2,
        DecodeOutcome::Matched(v1, rest1) => r2 matches DecodeOutcome::Matched(v2, rest2)
            && v1.deep_view() == v2.deep_view() && rest1@ == rest2@,
    }
}

/// A mathematical outcome pins the executable one down: any two outcomes
/// that realise the same `SpecOutcome` agree up to abstraction. With
/// this, a contract stated through `outcome_models` determines the result.
pub proof fn lemma_models_functional<T: DeepView>(
    r1: DecodeOutcome<T>,
    r2: DecodeOutcome<T>,
    m: SpecOutcome<T::V>,
)
    requires
        outcome_models(r1, m),
        outcome_models(r2, m),
    ensures
        outcome_equiv(r1, r2),
{
}

} // verus!
