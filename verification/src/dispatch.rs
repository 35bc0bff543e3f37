use vstd::prelude::*;
use crate::decoder::{Candidate, Decoder};
use crate::outcome::{DecodeOutcome, QuicError, outcome_models};

verus! {

/// Width in bytes of the stream tag at the front of an input span.
pub const TAG_WIDTH: usize = 1;

/// The discriminant value encoded by the first `TAG_WIDTH` bytes of the
/// input, widened to the tag type.
pub open spec fn spec_tag_of(input: Seq<u8>) -> u32
    recommends
        input.len() >= TAG_WIDTH,
{
    input[0] as u32
}

/// Some candidate in the list carries this tag. Presence depends only on
/// which tags occur, never on their order.
pub open spec fn tag_present<D>(cands: Seq<Candidate<D>>, tag: u32) -> bool {
    exists|i: int| 0 <= i < cands.len() && cands[i].tag == tag
}

/// `i` is the first position in the list whose candidate carries `tag`.
pub open spec fn is_first_match<D>(cands: Seq<Candidate<D>>, tag: u32, i: int) -> bool {
    &&& 0 <= i < cands.len()
    &&& cands[i].tag == tag
    &&& forall|j: int| 0 <= j < i ==> cands[j].tag != tag
}

/// All tags in the candidate list are distinct. Overlapping tags at one
/// dispatch point are a configuration error; a dispatch table is checked
/// with `tags_distinct` when it is built, rather than silently resolved by
/// list order at decode time.
pub open spec fn spec_tags_distinct<D>(cands: Seq<Candidate<D>>) -> bool {
    forall|i: int, j: int| 0 <= i < j < cands.len() ==> cands[i].tag != cands[j].tag
}

/// Reads the stream tag from the front of the input without consuming
/// anything beyond the tag itself.
pub fn read_tag(input: &[u8]) -> (t: u32)
    requires
        input@.len() >= TAG_WIDTH,
    ensures
        t == spec_tag_of(input@),
{
    input[0] as u32
}

/// Checks a candidate list for duplicate tags, so that a configuration
/// error fails fast at construction time instead of being resolved
/// silently by first-match order during decoding.
pub fn tags_distinct<D: Decoder>(cands: &Vec<Candidate<D>>) -> (b: bool)
    ensures
        b == spec_tags_distinct(cands@),
{
    let n = cands.len();
    let mut i: usize = 0;
    while i < n
        invariant
            n == cands@.len(),
            i <= n,
            forall|p: int, q: int| 0 <= p < q < cands@.len() && p < i ==> cands@[p].tag != cands@[q].tag,
        decreases n - i,
    {
        let mut j: usize = i + 1;
        while j < n
            invariant
                n == cands@.len(),
                i < j <= n,
                forall|q: int| i < q < j ==> cands@[i as int].tag != cands@[q].tag,
            decreases n - j,
        {
            if cands[i].tag == cands[j].tag {
                return false;
            }
            j += 1;
        }
        i += 1;
    }
    true
}

/// Tag dispatch: read the stream tag, then run the first candidate whose
/// tag equals it on the bytes after the tag, returning that candidate's
/// outcome unchanged. An input too short to hold the tag needs more data;
/// a tag that no candidate carries is malformed, and the exact value read
/// is recorded. An empty candidate list therefore reports the tag as
/// unmatched, like any other miss.
pub fn dispatch<'a, D: Decoder>(cands: &Vec<Candidate<D>>, input: &'a [u8]) -> (r: DecodeOutcome<
    'a,
    D::Value,
>)
    ensures
        input@.len() < TAG_WIDTH ==> r is NeedMoreData,
        input@.len() >= TAG_WIDTH && !tag_present(cands@, spec_tag_of(input@)) ==> r
            == DecodeOutcome::<'a, D::Value>::Malformed(
            QuicError::StreamTagNoMatch(spec_tag_of(input@)),
        ),
        forall|i: int|
            input@.len() >= TAG_WIDTH && is_first_match(cands@, spec_tag_of(input@), i)
                ==> outcome_models(r, cands@[i].decoder.model(input@.skip(TAG_WIDTH as int))),
        r matches DecodeOutcome::Matched(_, rest) ==> TAG_WIDTH + rest@.len() <= input@.len(),
{
    if input.len() < TAG_WIDTH {
        return DecodeOutcome::NeedMoreData;
    }
    let tag = read_tag(input);
    let rest: &[u8] = &input[TAG_WIDTH..input.len()];
    proof {
        assert(rest@ =~= input@.skip(TAG_WIDTH as int));
    }
    let n = cands.len();
    let mut k: usize = 0;
    while k < n
        invariant
            n == cands@.len(),
            k <= n,
            input@.len() >= TAG_WIDTH,
            tag == spec_tag_of(input@),
            rest@ == input@.skip(TAG_WIDTH as int),
            forall|j: int| 0 <= j < k ==> cands@[j].tag != tag,
        decreases n - k,
    {
        if cands[k].tag == tag {
            let r = cands[k].decoder.decode(rest);
            proof {
                assert(is_first_match(cands@, tag, k as int));
                assert forall|i: int| is_first_match(cands@, tag, i) implies i == k as int by {
                    if i < k as int {
                        assert(cands@[i].tag != tag);
                    } else if i > k as int {
                        assert(cands@[k as int].tag != tag);
                    }
                }
            }
            return r;
        }
        k += 1;
    }
    DecodeOutcome::Malformed(QuicError::StreamTagNoMatch(tag))
}

/// Whether a tag is present in a candidate list depends only on the
/// multiset of tags the list carries, not on their order: the absence that
/// `StreamTagNoMatch` reports is order-independent, while first-match
/// selection is the only part of dispatch that list order can affect.
pub proof fn lemma_absence_order_independent<D>(
    c1: Seq<Candidate<D>>,
    c2: Seq<Candidate<D>>,
    tag: u32,
)
    requires
        c1.map_values(|c: Candidate<D>| c.tag).to_multiset() == c2.map_values(
            |c: Candidate<D>| c.tag,
        ).to_multiset(),
    ensures
        tag_present(c1, tag) == tag_present(c2, tag),
{
    broadcast use vstd::seq_lib::group_to_multiset_ensures;

    let t1 = c1.map_values(|c: Candidate<D>| c.tag);
    let t2 = c2.map_values(|c: Candidate<D>| c.tag);
    lemma_present_iff_contains(c1, tag);
    lemma_present_iff_contains(c2, tag);
    assert(t1.contains(tag) <==> t1.to_multiset().count(tag) > 0);
    assert(t2.contains(tag) <==> t2.to_multiset().count(tag) > 0);
}

/// A tag is present among the candidates exactly when the sequence of
/// their tags contains it.
proof fn lemma_present_iff_contains<D>(cands: Seq<Candidate<D>>, tag: u32)
    ensures
        tag_present(cands, tag) <==> cands.map_values(|c: Candidate<D>| c.tag).contains(tag),
{
    let tags = cands.map_values(|c: Candidate<D>| c.tag);
    if tag_present(cands, tag) {
        let i = choose|i: int| 0 <= i < cands.len() && cands[i].tag == tag;
        assert(tags[i] == tag);
        assert(tags.contains(tag));
    }
    if tags.contains(tag) {
        let i = choose|i: int| 0 <= i < tags.len() && tags[i] == tag;
        assert(cands[i].tag == tag);
    }
}

} // verus!
