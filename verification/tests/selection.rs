use forward_optimal::endpoint::Endpoint;
use forward_optimal::score::ProbeStats;
use forward_optimal::score::ScoreParams;
use forward_optimal::select::pick_winner;
use forward_optimal::select::select_best_index;
use forward_optimal::select::target_result;
use forward_optimal::select::BestTarget;

fn target(name: &str, score: u128) -> BestTarget {
    BestTarget {
        name: name.to_owned(),
        addr: Endpoint::V4 { ip: [10, 0, 0, 1], port: 9000 },
        score,
    }
}

#[test]
fn selection_prefers_lowest_score() {
    // Scores 50 and 20, and a third target that was unreachable.
    let scores = vec![Some(50u128), Some(20u128), None];
    assert_eq!(select_best_index(&scores), Some(1));

    let results = vec![Some(target("a", 50)), Some(target("b", 20)), None];
    let winner = pick_winner(results).expect("one target scored");
    assert_eq!(winner.name, "b");
    assert_eq!(winner.score, 20);
}

#[test]
fn tie_breaks_to_first_configured() {
    let scores = vec![Some(20u128), Some(20u128)];
    assert_eq!(select_best_index(&scores), Some(0));

    let results = vec![Some(target("first", 20)), Some(target("second", 20))];
    let winner = pick_winner(results).expect("both targets scored");
    assert_eq!(winner.name, "first");
}

#[test]
fn no_scores_no_selection() {
    let scores: Vec<Option<u128>> = vec![None, None, None];
    assert_eq!(select_best_index(&scores), None);
    assert!(pick_winner(vec![None, None, None]).is_none());
    assert_eq!(select_best_index(&Vec::new()), None);
}

#[test]
fn target_result_carries_name_address_and_score() {
    let params = ScoreParams::standard();
    let mut stats = ProbeStats::new();
    for _ in 0..7 {
        stats.record_success(70);
    }
    for _ in 0..3 {
        stats.record_failure();
    }
    let addr = Endpoint::V4 { ip: [203, 0, 113, 9], port: 4000 };
    let entry = target_result("edge".to_owned(), addr, &stats, &params)
        .expect("a reachable target gets an entry");
    assert_eq!(entry.name, "edge");
    assert_eq!(entry.addr, addr);
    // (490 + 3 * 300) / 10 = 139.
    assert_eq!(entry.score, 139);
}

#[test]
fn target_result_of_unreachable_target_is_absent() {
    let params = ScoreParams::standard();
    let mut stats = ProbeStats::new();
    for _ in 0..10 {
        stats.record_failure();
    }
    let addr = Endpoint::V4 { ip: [203, 0, 113, 9], port: 4000 };
    assert!(target_result("edge".to_owned(), addr, &stats, &params).is_none());
}
