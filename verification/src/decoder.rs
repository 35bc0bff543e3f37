use vstd::prelude::*;
use crate::outcome::{DecodeOutcome, SpecOutcome, outcome_models};

verus! {

/// A decoding primitive: one step of the protocol grammar, from an input
/// span to a three-way outcome. Every primitive obeys the same contract:
/// its executable `decode` realises its mathematical `model`, and a match
/// never hands back a remainder longer than the input it was given.
pub trait Decoder: Sized {
    type Value: DeepView;

    /// What this decoder returns on any input, as a mathematical function
    /// over the abstract value type.
    spec fn model(&self, input: Seq<u8>) -> SpecOutcome<<Self::Value as DeepView>::V>;

    /// One decode attempt. Never panics, never consumes the input buffer:
    /// the remainder of a match is a view into `input`.
    fn decode<'a>(&self, input: &'a [u8]) -> (r: DecodeOutcome<'a, Self::Value>)
        ensures
            outcome_models(r, self.model(input@)),
            r matches DecodeOutcome::Matched(_, rest) ==> rest@.len() <= input@.len(),
    ;
}

/// A candidate at a dispatch point: a stream-tag value paired with the
/// decoder that handles inputs carrying that tag. The candidate set of a
/// dispatch point is fixed per protocol version.
pub struct Candidate<D> {
    pub tag: u32,
    pub decoder: D,
}

} // verus!
