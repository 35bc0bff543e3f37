use vstd::prelude::*;
use crate::decoder::Decoder;
use crate::outcome::{DecodeOutcome, SpecOutcome, outcome_models};

verus! {

/// Prepends already-decoded values to the result of the remaining steps of
/// a compound decode. A result that needs more data or is malformed passes
/// through untouched: earlier progress is discarded, never reinterpreted.
pub open spec fn prepend_values<T>(vs: Seq<T>, m: SpecOutcome<Seq<T>>) -> SpecOutcome<Seq<T>> {
    match m {
        SpecOutcome::NeedMoreData => SpecOutcome::NeedMoreData,
        SpecOutcome::Malformed(e) => SpecOutcome::Malformed(e),
        SpecOutcome::Matched(ws, rest) => SpecOutcome::Matched(vs + ws, rest),
    }
}

/// The merge rule for a compound decode that runs the given decoders in
/// sequence, each on the remainder of the one before: the first step that
/// needs more data or is malformed decides the whole outcome, with its
/// detail passed through unchanged; only if every step matches does the
/// compound match, with the values in step order and the final remainder.
pub open spec fn compound_model<D: Decoder>(decs: Seq<D>, input: Seq<u8>) -> SpecOutcome<
    Seq<<D::Value as DeepView>::V>,
>
    decreases decs.len(),
{
    if decs.len() == 0 {
        SpecOutcome::Matched(Seq::empty(), input)
    } else {
        match decs[0].model(input) {
            SpecOutcome::NeedMoreData => SpecOutcome::NeedMoreData,
            SpecOutcome::Malformed(e) => SpecOutcome::Malformed(e),
            SpecOutcome::Matched(v, rest) => prepend_values(
                seq![v],
                compound_model(decs.drop_first(), rest),
            ),
        }
    }
}

/// Runs the given decoders in sequence over the input and assembles their
/// values, under the merge rule `compound_model`: short-circuit on the
/// first step that does not match, no partial record on failure.
pub fn decode_all<'a, D: Decoder>(decs: &Vec<D>, input: &'a [u8]) -> (r: DecodeOutcome<
    'a,
    Vec<D::Value>,
>)
    ensures
        outcome_models(r, compound_model(decs@, input@)),
        r matches DecodeOutcome::Matched(_, rest) ==> rest@.len() <= input@.len(),
{
    let mut vals: Vec<D::Value> = Vec::new();
    let mut rest: &'a [u8] = input;
    let n = decs.len();
    let mut i: usize = 0;
    proof {
        assert(decs@.skip(0) =~= decs@);
        assert(vals.deep_view() =~= Seq::<<D::Value as DeepView>::V>::empty());
        match compound_model(decs@, input@) {
            SpecOutcome::NeedMoreData => {
            },
            SpecOutcome::Malformed(e) => {
            },
            SpecOutcome::Matched(ws, r) => {
                assert(Seq::<<D::Value as DeepView>::V>::empty() + ws =~= ws);
            },
        }
    }
    while i < n
        invariant
            n == decs@.len(),
            i <= n,
            rest@.len() <= input@.len(),
            compound_model(decs@, input@) == prepend_values(
                vals.deep_view(),
                compound_model(decs@.skip(i as int), rest@),
            ),
        decreases n - i,
    {
        let ghost tail = decs@.skip(i as int);
        proof {
            assert(tail[0] == decs@[i as int]);
            assert(tail.drop_first() =~= decs@.skip(i as int + 1));
        }
        match decs[i].decode(rest) {
            DecodeOutcome::NeedMoreData => {
                return DecodeOutcome::NeedMoreData;
            },
            DecodeOutcome::Malformed(e) => {
                return DecodeOutcome::Malformed(e);
            },
            DecodeOutcome::Matched(v, rest2) => {
                let ghost v_abs = v.deep_view();
                let ghost vals_old = vals.deep_view();
                proof {
                    assert(compound_model(tail, rest@) == prepend_values(
                        seq![v_abs],
                        compound_model(decs@.skip(i as int + 1), rest2@),
                    ));
                }
                vals.push(v);
                rest = rest2;
                proof {
                    assert(vals.deep_view() =~= vals_old + seq![v_abs]);
                    lemma_prepend_values_compose(
                        vals_old,
                        seq![v_abs],
                        compound_model(decs@.skip(i as int + 1), rest@),
                    );
                }
                i += 1;
            },
        }
    }
    proof {
        assert(decs@.skip(n as int) =~= Seq::<D>::empty());
        assert(vals.deep_view() + Seq::<<D::Value as DeepView>::V>::empty() =~= vals.deep_view());
    }
    DecodeOutcome::Matched(vals, rest)
}

/// Prepending two groups of values one after the other is prepending
/// their concatenation.
proof fn lemma_prepend_values_compose<T>(vs: Seq<T>, ws: Seq<T>, m: SpecOutcome<Seq<T>>)
    ensures
        prepend_values(vs, prepend_values(ws, m)) == prepend_values(vs + ws, m),
{
    match m {
        SpecOutcome::NeedMoreData => {
        },
        SpecOutcome::Malformed(e) => {
        },
        SpecOutcome::Matched(xs, rest) => {
            assert(vs + (ws + xs) =~= (vs + ws) + xs);
        },
    }
}

/// Short-circuit: if running a sequence of decoders already fails to
/// match — some step needs more data or is malformed — then the steps of
/// any extension of that sequence are never reached, and the outcome,
/// detail included, is exactly that of the failing prefix.
pub proof fn lemma_compound_short_circuit<D: Decoder>(prefix: Seq<D>, suffix: Seq<D>, input: Seq<u8>)
    requires
        !(compound_model(prefix, input) is Matched),
    ensures
        compound_model(prefix + suffix, input) == compound_model(prefix, input),
    decreases prefix.len(),
{
    if prefix.len() == 0 {
        assert(false);
    } else {
        let whole = prefix + suffix;
        assert(whole[0] == prefix[0]);
        assert(whole.drop_first() =~= prefix.drop_first() + suffix);
        match prefix[0].model(input) {
            SpecOutcome::NeedMoreData => {
            },
            SpecOutcome::Malformed(e) => {
            },
            SpecOutcome::Matched(v, rest) => {
                assert(!(compound_model(prefix.drop_first(), rest) is Matched));
                lemma_compound_short_circuit(prefix.drop_first(), suffix, rest);
            },
        }
    }
}

} // verus!
