use vstd::prelude::*;
use crate::select::any_scored;
use crate::select::pick_winner;
use crate::select::BestTarget;

verus! {

/// What one probing round did to the stored winner: nothing for want of a
/// candidate, a switch to a differently named target, or a re-confirmation
/// of the current one with refreshed numbers.
#[derive(Clone, Copy, Debug, PartialEq, Eq, Structural)]
pub enum RoundOutcome {
    NoCandidate,
    Switched,
    Confirmed,
}

/// The one value the probing loop and the accept loop share: the current
/// best target, if any round has produced one yet. The probing loop is the
/// only writer; the accept loop only takes snapshots.
#[derive(Debug)]
pub struct State {
    pub best: Option<BestTarget>,
}

impl State {
    /// A fresh state holds no winner: until a round succeeds, connections
    /// have nowhere to go.
    pub fn new() -> (r: State)
        ensures
            r.best is None,
    {
        State { best: None }
    }

    /// A value copy of the current winner, so that a caller never holds a
    /// live reference into the shared cell.
    pub fn read_snapshot(&self) -> (r: Option<BestTarget>)
        ensures
            r == self.best,
    {
        match &self.best {
            None => None,
            Some(b) => Some(b.clone()),
        }
    }

    /// Replaces the stored winner outright with the given one.
    pub fn replace(&mut self, winner: BestTarget)
        ensures
            final(self).best == Some(winner),
    {
        self.best = Some(winner);
    }

    /// Folds one round's result into the state. A round with no scoreable
    /// target leaves the stored winner untouched — a stale but previously
    /// verified target beats forwarding nowhere. A round with a winner
    /// replaces the stored value outright and reports whether the winning
    /// name changed.
    pub fn apply_round(&mut self, winner: Option<BestTarget>) -> (r: RoundOutcome)
        ensures
            winner is None ==> final(self).best == old(self).best && r
                == RoundOutcome::NoCandidate,
            winner matches Some(w) ==> {
                &&& final(self).best == Some(w)
                &&& (r == RoundOutcome::Switched <==> match old(self).best {
                    None => true,
                    Some(c) => c.name@ != w.name@,
                })
                &&& (r == RoundOutcome::Confirmed <==> match old(self).best {
                    None => false,
                    Some(c) => c.name@ == w.name@,
                })
            },
    {
        match winner {
            None => RoundOutcome::NoCandidate,
            Some(w) => {
                let changed = match &self.best {
                    None => true,
                    Some(current) => !(current.name == w.name),
                };
                self.best = Some(w);
                if changed {
                    RoundOutcome::Switched
                } else {
                    RoundOutcome::Confirmed
                }
            }
        }
    }
    /// The fan-in barrier of one probing round: picks the winner out of
    /// the per-target results (listed in configuration order) and folds it
    /// into the state. A round in which no target scored leaves the stored
    /// winner untouched.
    pub fn complete_round(&mut self, results: Vec<Option<BestTarget>>) -> (r: RoundOutcome)
        ensures
            !any_scored(results@) ==> final(self).best == old(self).best && r
                == RoundOutcome::NoCandidate,
            any_scored(results@) ==> (final(self).best matches Some(w) && {
                &&& exists|i: int|
                    {
                        &&& 0 <= i < results@.len()
                        &&& #[trigger] results@[i] == Some(w)
                        &&& forall|j: int|
                            0 <= j < results@.len() && results@[j] is Some ==> w.score
                                <= results@[j]->0.score
                        &&& forall|j: int|
                            0 <= j < i ==> (results@[j] is None || results@[j]->0.score > w.score)
                    }
                &&& (r == RoundOutcome::Switched <==> match old(self).best {
                    None => true,
                    Some(c) => c.name@ != w.name@,
                })
                &&& (r == RoundOutcome::Confirmed <==> match old(self).best {
                    None => false,
                    Some(c) => c.name@ == w.name@,
                })
            }),
    {
        let winner = pick_winner(results);
        self.apply_round(winner)
    }
}

} // verus!
