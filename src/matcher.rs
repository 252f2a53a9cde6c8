//! Ranking of candidate values against the qualities a header gives.
use vstd::prelude::*;
use crate::priority_map::PriorityMap;
use crate::quality::{is_positive, Quality, REJECTED_BITS};

verus! {

/// The quality that `accepts` gives `candidate`: its own, or -1.0 where it has none.
pub open spec fn quality_for(accepts: Map<Seq<char>, u64>, candidate: Seq<char>) -> u64 {
    if accepts.contains_key(candidate) {
        accepts[candidate]
    } else {
        REJECTED_BITS
    }
}

/// Each candidate with the quality that `accepts` gives it, in order.
pub open spec fn ranked(accepts: Map<Seq<char>, u64>, candidates: Seq<Seq<char>>) -> Seq<
    (Seq<char>, u64),
> {
    candidates.map_values(|c: Seq<char>| (c, quality_for(accepts, c)))
}

/// The pairs whose quality is strictly greater than zero, in order.
pub open spec fn accepted(pairs: Seq<(Seq<char>, u64)>) -> Seq<(Seq<char>, u64)> {
    pairs.filter(|e: (Seq<char>, u64)| is_positive(e.1))
}

/// The text of each candidate.
pub open spec fn texts(candidates: Seq<String>) -> Seq<Seq<char>> {
    candidates.map_values(|c: String| c@)
}

/// Each candidate's text with its quality's bits.
pub open spec fn pairs_view(pairs: Seq<(String, Quality)>) -> Seq<(Seq<char>, u64)> {
    pairs.map_values(|e: (String, Quality)| (e.0@, e.1.bits))
}

/// Each candidate with the quality that `accepts` gives it, in the order
/// given; a candidate that `accepts` does not hold gets -1.0.
pub fn priorities_for(accepts: &PriorityMap<Quality>, provided: Vec<String>) -> (r: Vec<
    (String, Quality),
>)
    ensures
        r.len() == provided.len(),
        forall|i: int|
            0 <= i < r.len() ==> (#[trigger] r[i]).0 == provided[i] && r[i].1.bits == quality_for(
                accepts@,
                provided[i]@,
            ),
        pairs_view(r@) == ranked(accepts@, texts(provided@)),
{
    let mut r: Vec<(String, Quality)> = Vec::new();
    let mut i: usize = 0;
    while i < provided.len()
        invariant
            i <= provided.len(),
            r.len() == i,
            forall|j: int|
                0 <= j < i ==> (#[trigger] r[j]).0 == provided[j] && r[j].1.bits == quality_for(
                    accepts@,
                    provided[j]@,
                ),
        decreases provided.len() - i,
    {
        let candidate = provided[i].clone();
        let quality = match accepts.get(candidate.as_str()) {
            Some(q) => *q,
            None => Quality::rejected(),
        };
        r.push((candidate, quality));
        i += 1;
    }
    assert(pairs_view(r@) =~= ranked(accepts@, texts(provided@)));
    r
}

/// The candidates that `accepts` gives a quality strictly greater than zero,
/// each with that quality, in the order given.
pub fn accepted_priorities(accepts: &PriorityMap<Quality>, candidates: Vec<String>) -> (r: Vec<
    (String, Quality),
>)
    ensures
        pairs_view(r@) == accepted(ranked(accepts@, texts(candidates@))),
        forall|i: int| 0 <= i < r.len() ==> is_positive(#[trigger] r[i].1.bits),
{
    let all = priorities_for(accepts, candidates);
    let ghost whole = pairs_view(all@);
    let mut r: Vec<(String, Quality)> = Vec::new();
    let mut i: usize = 0;
    while i < all.len()
        invariant
            i <= all.len(),
            whole == pairs_view(all@),
            pairs_view(r@) == accepted(whole.take(i as int)),
            forall|j: int| 0 <= j < r.len() ==> is_positive(#[trigger] r[j].1.bits),
        decreases all.len() - i,
    {
        let pair = (all[i].0.clone(), all[i].1);
        assert(whole.take(i + 1).drop_last() =~= whole.take(i as int));
        assert(whole.take(i + 1).last() == (pair.0@, pair.1.bits));
        proof {
            reveal_with_fuel(Seq::filter, 1);
        }
        if pair.1.is_accepted() {
            r.push(pair);
            assert(pairs_view(r@) =~= accepted(whole.take(i + 1)));
        } else {
            assert(pairs_view(r@) =~= accepted(whole.take(i + 1)));
        }
        i += 1;
    }
    assert(whole.take(all.len() as int) =~= whole);
    r
}

} // verus!

verus! {

/// Whatever the header and the candidates, every pair that is kept has a
/// quality strictly greater than zero.
pub proof fn lemma_accepted_positive(accepts: Map<Seq<char>, u64>, candidates: Seq<Seq<char>>)
    ensures
        forall|i: int|
            0 <= i < accepted(ranked(accepts, candidates)).len() ==> is_positive(
                #[trigger] accepted(ranked(accepts, candidates))[i].1,
            ),
{
    broadcast use vstd::seq_lib::group_filter_ensures;

    let pairs = ranked(accepts, candidates);
    assert forall|i: int| 0 <= i < accepted(pairs).len() implies is_positive(
        #[trigger] accepted(pairs)[i].1,
    ) by {
        let f = |e: (Seq<char>, u64)| is_positive(e.1);
        assert(accepted(pairs) == pairs.filter(f));
        assert(f(pairs.filter(f)[i]));
    }
}

} // verus!
