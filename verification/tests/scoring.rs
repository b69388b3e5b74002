use forward_optimal::score::ProbeStats;
use forward_optimal::score::ScoreParams;

fn stats_with(successes: &[u128], failures: u32) -> ProbeStats {
    let mut stats = ProbeStats::new();
    for &rtt in successes {
        stats.record_success(rtt);
    }
    for _ in 0..failures {
        stats.record_failure();
    }
    stats
}

#[test]
fn score_formula_exact() {
    let params = ScoreParams::standard();
    // Eight successes worth 800 ms in all, two failures at 300 ms each:
    // (800 + 600) / 10 = 140.
    let stats = stats_with(&[100; 8], 2);
    assert_eq!(stats.score(&params), Some(140));
}

#[test]
fn score_all_successes_is_plain_average() {
    let params = ScoreParams::standard();
    let stats = stats_with(&[10, 20, 30, 40, 50, 60, 70, 80, 90, 100], 0);
    assert_eq!(stats.score(&params), Some(55));
}

#[test]
fn score_grows_strictly_with_failures() {
    // A fixed 500 ms worth of successful probes, with ever more of the
    // remaining attempts failing.
    let params = ScoreParams::standard();
    let mut last = None;
    for failures in 0..6u32 {
        let successes = 10 - failures;
        let mut rtts = vec![0u128; successes as usize];
        rtts[0] = 500;
        let stats = stats_with(&rtts, failures);
        let score = stats.score(&params).unwrap();
        if let Some(prev) = last {
            assert!(score > prev, "score must grow with failures");
        }
        last = Some(score);
    }
}

#[test]
fn unreachable_target_has_no_score() {
    let params = ScoreParams::standard();
    let stats = stats_with(&[], 10);
    assert_eq!(stats.score(&params), None);
}

#[test]
fn stats_track_min_max_avg() {
    let stats = stats_with(&[30, 10, 20], 2);
    assert_eq!(stats.attempts, 5);
    assert_eq!(stats.successes, 3);
    assert_eq!(stats.rtt_sum, 60);
    assert_eq!(stats.min_ms, 10);
    assert_eq!(stats.max_ms, 30);
    assert_eq!(stats.avg_ms(), Some(20));
}

#[test]
fn stats_before_any_success() {
    let stats = ProbeStats::new();
    assert_eq!(stats.avg_ms(), None);
    assert_eq!(stats.min_ms, u128::MAX);
    assert_eq!(stats.max_ms, 0);
}

#[test]
fn standard_params_match_documented_knobs() {
    let params = ScoreParams::standard();
    assert_eq!(params.probe_count, 10);
    assert_eq!(params.connect_timeout_ms, 1000);
    assert_eq!(params.inter_probe_delay_ms, 10);
    assert_eq!(params.failure_penalty_ms, 300);
}
