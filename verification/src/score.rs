use vstd::prelude::*;
use vstd::arithmetic::div_mod::lemma_div_is_ordered;
use vstd::arithmetic::div_mod::lemma_hoist_over_denominator;

verus! {

/// The number of probe attempts made against each target in one round.
pub const PROBE_COUNT: u32 = 10;

/// The latency-equivalent cost, in milliseconds, charged per failed attempt.
pub const FAILURE_PENALTY_MS: u128 = 300;

/// How long one connection attempt may take before it counts as failed.
pub const CONNECT_TIMEOUT_MS: u64 = 1000;

/// The pause between two probe attempts against the same target.
pub const INTER_PROBE_DELAY_MS: u64 = 10;

/// The knobs of one scoring pass over a target: how many attempts are made,
/// how long each may take, how long to pause between attempts, and what a
/// failed attempt costs in milliseconds of latency.
#[derive(Clone, Copy, Debug)]
pub struct ScoreParams {
    pub probe_count: u32,
    pub connect_timeout_ms: u64,
    pub inter_probe_delay_ms: u64,
    pub failure_penalty_ms: u128,
}

impl ScoreParams {
    /// A set of parameters is usable when it asks for at least one attempt.
    pub open spec fn wf(self) -> bool {
        self.probe_count > 0
    }

    /// The stock parameters: ten attempts, a one-second connect timeout,
    /// ten milliseconds between attempts, and a 300 ms failure penalty.
    pub fn standard() -> (r: ScoreParams)
        ensures
            r.wf(),
            r.probe_count == PROBE_COUNT,
            r.connect_timeout_ms == CONNECT_TIMEOUT_MS,
            r.inter_probe_delay_ms == INTER_PROBE_DELAY_MS,
            r.failure_penalty_ms == FAILURE_PENALTY_MS,
    {
        ScoreParams {
            probe_count: PROBE_COUNT,
            connect_timeout_ms: CONNECT_TIMEOUT_MS,
            inter_probe_delay_ms: INTER_PROBE_DELAY_MS,
            failure_penalty_ms: FAILURE_PENALTY_MS,
        }
    }
}

/// Running statistics over the probe attempts made against one target:
/// how many attempts were made, how many succeeded, the sum of the
/// successful round-trip times, and the fastest and slowest of them.
#[derive(Clone, Copy, Debug)]
pub struct ProbeStats {
    pub attempts: u32,
    pub successes: u32,
    pub rtt_sum: u128,
    pub min_ms: u128,
    pub max_ms: u128,
}

/// The score a target earns from its statistics: the successful round-trip
/// times plus a fixed penalty per failed attempt, averaged over all
/// attempts. Lower is better.
pub open spec fn spec_score(rtt_sum: u128, fail_count: u32, penalty: u128, probe_count: u32) -> int
    recommends
        probe_count > 0,
{
    (rtt_sum + fail_count * penalty) / (probe_count as int)
}

impl ProbeStats {
    /// No statistic can report more successes than attempts; before any
    /// success the extremes sit at their initial sentinels.
    pub open spec fn wf(self) -> bool {
        &&& self.successes <= self.attempts
        &&& (self.successes == 0 ==> self.rtt_sum == 0 && self.min_ms == u128::MAX
            && self.max_ms == 0)
    }

    /// The number of attempts that did not produce a connection.
    pub open spec fn fail_count(self) -> u32 {
        (self.attempts - self.successes) as u32
    }

    /// Fresh statistics: nothing attempted yet.
    pub fn new() -> (r: ProbeStats)
        ensures
            r.wf(),
            r.attempts == 0,
            r.successes == 0,
            r.rtt_sum == 0,
            r.min_ms == u128::MAX,
            r.max_ms == 0,
    {
        ProbeStats { attempts: 0, successes: 0, rtt_sum: 0, min_ms: u128::MAX, max_ms: 0 }
    }

    /// Folds one successful attempt with the given round-trip time into the
    /// statistics.
    pub fn record_success(&mut self, rtt_ms: u128)
        requires
            old(self).wf(),
            old(self).attempts < u32::MAX,
            old(self).rtt_sum + rtt_ms <= u128::MAX,
        ensures
            final(self).wf(),
            final(self).attempts == old(self).attempts + 1,
            final(self).successes == old(self).successes + 1,
            final(self).rtt_sum == old(self).rtt_sum + rtt_ms,
            final(self).min_ms == if rtt_ms < old(self).min_ms { rtt_ms } else { old(self).min_ms },
            final(self).max_ms == if rtt_ms > old(self).max_ms { rtt_ms } else { old(self).max_ms },
    {
        self.attempts = self.attempts + 1;
        self.successes = self.successes + 1;
        self.rtt_sum = self.rtt_sum + rtt_ms;
        if rtt_ms < self.min_ms {
            self.min_ms = rtt_ms;
        }
        if rtt_ms > self.max_ms {
            self.max_ms = rtt_ms;
        }
    }

    /// Folds one failed attempt into the statistics; only the attempt count
    /// moves.
    pub fn record_failure(&mut self)
        requires
            old(self).wf(),
            old(self).attempts < u32::MAX,
        ensures
            final(self).wf(),
            final(self).attempts == old(self).attempts + 1,
            final(self).successes == old(self).successes,
            final(self).rtt_sum == old(self).rtt_sum,
            final(self).min_ms == old(self).min_ms,
            final(self).max_ms == old(self).max_ms,
    {
        self.attempts = self.attempts + 1;
    }

    /// The mean successful round-trip time, or `None` before any success.
    pub fn avg_ms(&self) -> (r: Option<u128>)
        ensures
            r is None <==> self.successes == 0,
            r matches Some(v) ==> v == self.rtt_sum / (self.successes as u128),
    {
        if self.successes == 0 {
            None
        } else {
            Some(self.rtt_sum / (self.successes as u128))
        }
    }

    /// The target's score for this round, or `None` when not one attempt
    /// succeeded (the target is then unreachable, not infinitely slow).
    pub fn score(&self, params: &ScoreParams) -> (r: Option<u128>)
        requires
            self.wf(),
            params.wf(),
            self.attempts == params.probe_count,
            self.rtt_sum + self.fail_count() * params.failure_penalty_ms <= u128::MAX,
        ensures
            r is None <==> self.successes == 0,
            r matches Some(v) ==> v == spec_score(
                self.rtt_sum,
                self.fail_count(),
                params.failure_penalty_ms,
                params.probe_count,
            ),
    {
        if self.successes == 0 {
            None
        } else {
            let fails: u32 = self.attempts - self.successes;
            let total: u128 = self.rtt_sum + (fails as u128) * params.failure_penalty_ms;
            Some(total / (params.probe_count as u128))
        }
    }
}

/// With the successful round-trip times held fixed, the score grows
/// strictly with the number of failed attempts, as long as the penalty is
/// at least the number of attempts (integer division swallows a smaller
/// penalty step).
pub proof fn lemma_score_monotone_in_failures(
    rtt_sum: u128,
    f1: u32,
    f2: u32,
    penalty: u128,
    probe_count: u32,
)
    requires
        probe_count > 0,
        penalty >= probe_count,
        f1 < f2,
    ensures
        spec_score(rtt_sum, f1, penalty, probe_count) < spec_score(
            rtt_sum,
            f2,
            penalty,
            probe_count,
        ),
{
    let n = probe_count as int;
    let a1 = rtt_sum + f1 * penalty;
    let a2 = rtt_sum + f2 * penalty;
    assert(a2 >= a1 + n) by (nonlinear_arith)
        requires
            a1 == rtt_sum + f1 * penalty,
            a2 == rtt_sum + f2 * penalty,
            f1 < f2,
            penalty >= n,
            n > 0,
    ;
    lemma_hoist_over_denominator(a1, 1, probe_count as nat);
    lemma_div_is_ordered(a1 + n, a2, n);
}

} // verus!
