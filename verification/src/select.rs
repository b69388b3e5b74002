use vstd::prelude::*;
use crate::endpoint::Endpoint;
use crate::score::{spec_score, ProbeStats, ScoreParams};

verus! {

/// The winner of a probing round: the target's configured name, its
/// address as resolved for that round, and the score it earned.
#[derive(Debug)]
pub struct BestTarget {
    pub name: String,
    pub addr: Endpoint,
    pub score: u128,
}

impl Clone for BestTarget {
    fn clone(&self) -> (r: Self)
        ensures
            r == *self,
    {
        BestTarget { name: self.name.clone(), addr: self.addr, score: self.score }
    }
}

/// The per-round score of the target at one index, `None` where the target
/// was unreachable or failed to resolve this round.
pub open spec fn score_at(scores: Seq<Option<u128>>, j: int) -> u128
    recommends
        0 <= j < scores.len(),
        scores[j] is Some,
{
    scores[j]->0
}

/// Picks the index of the winning score: the smallest finite score, and on
/// a tie the earliest index, so that selection is deterministic in
/// configuration order. Returns `None` exactly when no score is finite.
pub fn select_best_index(scores: &Vec<Option<u128>>) -> (r: Option<usize>)
    ensures
        r is None <==> (forall|j: int| 0 <= j < scores@.len() ==> scores@[j] is None),
        r matches Some(i) ==> {
            &&& 0 <= (i as int) < scores@.len()
            &&& scores@[i as int] is Some
            &&& forall|j: int|
                0 <= j < scores@.len() && scores@[j] is Some ==> score_at(scores@, i as int)
                    <= score_at(scores@, j)
            &&& forall|j: int|
                0 <= j < i as int ==> (scores@[j] is None || score_at(scores@, j) > score_at(
                    scores@,
                    i as int,
                ))
        },
{
    let mut best: Option<usize> = None;
    let mut i: usize = 0;
    while i < scores.len()
        invariant
            i <= scores@.len(),
            best is None <==> (forall|j: int| 0 <= j < i as int ==> scores@[j] is None),
            best matches Some(b) ==> {
                &&& 0 <= (b as int) < i as int
                &&& scores@[b as int] is Some
                &&& forall|j: int|
                    0 <= j < i as int && scores@[j] is Some ==> score_at(scores@, b as int)
                        <= score_at(scores@, j)
                &&& forall|j: int|
                    0 <= j < b as int ==> (scores@[j] is None || score_at(scores@, j) > score_at(
                        scores@,
                        b as int,
                    ))
            },
        decreases scores@.len() - i,
    {
        if let Some(s) = scores[i] {
            match best {
                None => {
                    best = Some(i);
                }
                Some(b) => {
                    if let Some(cur) = scores[b] {
                        if s < cur {
                            best = Some(i);
                        }
                    }
                }
            }
        }
        i = i + 1;
    }
    best
}

/// Folds one target's probe statistics into its entry for the round:
/// its score under the given parameters, tied to its name and resolved
/// address, or `None` when not one attempt succeeded.
pub fn target_result(
    name: String,
    addr: Endpoint,
    stats: &ProbeStats,
    params: &ScoreParams,
) -> (r: Option<BestTarget>)
    requires
        stats.wf(),
        params.wf(),
        stats.attempts == params.probe_count,
        stats.rtt_sum + stats.fail_count() * params.failure_penalty_ms <= u128::MAX,
    ensures
        r is None <==> stats.successes == 0,
        r matches Some(b) ==> b.name == name && b.addr == addr && b.score == spec_score(
            stats.rtt_sum,
            stats.fail_count(),
            params.failure_penalty_ms,
            params.probe_count,
        ),
{
    match stats.score(params) {
        None => None,
        Some(score) => Some(BestTarget { name, addr, score }),
    }
}

/// Whether any entry of a round's results carries a score.
pub open spec fn any_scored(results: Seq<Option<BestTarget>>) -> bool {
    exists|j: int| 0 <= j < results.len() && results[j] is Some
}

/// Picks the round's winner out of the per-target results, listed in
/// configuration order: the entry with the strictly smallest score wins,
/// and on an exact tie the one listed first. Returns `None` exactly when
/// no target produced a score this round.
pub fn pick_winner(mut results: Vec<Option<BestTarget>>) -> (r: Option<BestTarget>)
    ensures
        r is Some <==> any_scored(results@),
        r matches Some(w) ==> exists|i: int|
            {
                &&& 0 <= i < results@.len()
                &&& #[trigger] results@[i] == Some(w)
                &&& forall|j: int|
                    0 <= j < results@.len() && results@[j] is Some ==> w.score
                        <= results@[j]->0.score
                &&& forall|j: int|
                    0 <= j < i ==> (results@[j] is None || results@[j]->0.score > w.score)
            },
{
    let ghost all = results@;
    let mut scores: Vec<Option<u128>> = Vec::new();
    let mut k: usize = 0;
    while k < results.len()
        invariant
            results@ == all,
            k <= all.len(),
            scores@.len() == k as int,
            forall|j: int|
                0 <= j < k as int ==> (#[trigger] scores@[j] is Some <==> all[j] is Some),
            forall|j: int|
                0 <= j < k as int && all[j] is Some ==> scores@[j]->0 == all[j]->0.score,
        decreases all.len() - k,
    {
        match &results[k] {
            None => scores.push(None),
            Some(b) => scores.push(Some(b.score)),
        }
        k = k + 1;
    }
    match select_best_index(&scores) {
        None => {
            proof {
                assert(forall|j: int| 0 <= j < all.len() ==> all[j] is None);
            }
            None
        }
        Some(i) => {
            let won = results.remove(i);
            proof {
                assert(all[i as int] is Some);
                assert(forall|j: int|
                    0 <= j < all.len() && all[j] is Some ==> all[i as int]->0.score
                        <= all[j]->0.score);
            }
            won
        }
    }
}

} // verus!
