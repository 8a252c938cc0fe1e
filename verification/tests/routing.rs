use payment_routing::change_detector::detect_significant_change;
use payment_routing::config::{append_bounded, PaymentConnector, RoutingAlgorithm};
use payment_routing::engine::{ActivePolicy, RoutingEngine};
use payment_routing::sliding_window_ucb::SlidingWindowUCB;
use payment_routing::thompson_sampling::ThompsonSampling;
use payment_routing::{RoutingError, SCALE};

fn names(ids: &[&str]) -> Vec<String> {
    ids.iter().map(|s| s.to_string()).collect()
}

#[test]
fn bounded_append_fifo_round_trip() {
    // Capacity 3, four appends: the oldest value leaves, order is kept.
    let mut v: Vec<u64> = Vec::new();
    assert_eq!(append_bounded(&mut v, 1, 3), None);
    assert_eq!(append_bounded(&mut v, 2, 3), None);
    assert_eq!(append_bounded(&mut v, 3, 3), None);
    assert_eq!(v, vec![1, 2, 3]);
    assert_eq!(append_bounded(&mut v, 4, 3), Some(1));
    assert_eq!(v, vec![2, 3, 4]);
    assert_eq!(append_bounded(&mut v, 5, 3), Some(2));
    assert_eq!(v, vec![3, 4, 5]);
}

#[test]
fn thompson_update_exact_values() {
    // gamma = 0.95: one success from the uniform prior, then one failure.
    let policy = ThompsonSampling::new(950_000_000, 8, 200_000_000);
    let mut connectors = vec![PaymentConnector::new("stripe".to_string(), 5)];
    assert_eq!(connectors[0].alpha, SCALE);
    assert_eq!(connectors[0].beta, SCALE);

    policy.update(&mut connectors, 0, true);
    // alpha = 0.95 * 1 + 1 = 1.95; beta unchanged at 1.
    assert_eq!(connectors[0].alpha, 1_950_000_000);
    assert_eq!(connectors[0].beta, 1_000_000_000);

    policy.update(&mut connectors, 0, false);
    // alpha = 0.95 * 1.95 = 1.8525; beta = 0.95 * 1 + 1 = 1.95.
    assert_eq!(connectors[0].alpha, 1_852_500_000);
    assert_eq!(connectors[0].beta, 1_950_000_000);

    // Rate snapshots recorded after each update: alpha / (alpha + beta).
    // 1.95 / 2.95 and 1.8525 / 3.8025, floored at nano precision.
    assert_eq!(connectors[0].rate_history, vec![661_016_949, 487_179_487]);
    // Lifetime counters and window belong to the UCB policy and stay as
    // they were.
    assert_eq!(connectors[0].attempts, 0);
    assert_eq!(connectors[0].successes, 0);
    assert!(connectors[0].window.is_empty());
}

#[test]
fn thompson_select_picks_largest_sample_first_on_ties() {
    let policy = ThompsonSampling::new(950_000_000, 8, 200_000_000);
    let connectors = vec![
        PaymentConnector::new("a".to_string(), 5),
        PaymentConnector::new("b".to_string(), 5),
        PaymentConnector::new("c".to_string(), 5),
        PaymentConnector::new("d".to_string(), 5),
    ];
    let samples = vec![5, 9, 9, 2];
    assert_eq!(policy.select(&connectors, &samples), Ok(1));
    let samples = vec![7, 7, 7, 7];
    assert_eq!(policy.select(&connectors, &samples), Ok(0));
}

#[test]
fn thompson_select_rejects_empty_set() {
    let policy = ThompsonSampling::new(950_000_000, 8, 200_000_000);
    let connectors: Vec<PaymentConnector> = Vec::new();
    let samples: Vec<u64> = Vec::new();
    assert_eq!(
        policy.select(&connectors, &samples),
        Err(RoutingError::NoCandidates)
    );
}

#[test]
fn thompson_select_flags_corrupt_pseudo_counts() {
    let policy = ThompsonSampling::new(950_000_000, 8, 200_000_000);
    let mut connectors = vec![
        PaymentConnector::new("a".to_string(), 5),
        PaymentConnector::new("b".to_string(), 5),
    ];
    connectors[1].alpha = 0;
    let samples = vec![1, 2];
    assert_eq!(
        policy.select(&connectors, &samples),
        Err(RoutingError::InvalidParameter)
    );
}

#[test]
fn ucb_update_window_holds_last_outcomes() {
    // Window capacity 5; feed 12 outcomes and check the window always
    // holds the most recent five, in order, with lifetime counters exact.
    let policy = SlidingWindowUCB::new(5, 2_000_000_000);
    let mut connectors = vec![PaymentConnector::new("a".to_string(), 5)];
    let outcomes = [
        true, false, true, true, false, false, true, false, true, true, false, true,
    ];
    for &o in outcomes.iter() {
        policy.update(&mut connectors, 0, o);
        assert!(connectors[0].window.len() <= 5);
    }
    assert_eq!(connectors[0].window, vec![false, true, true, false, true]);
    assert_eq!(connectors[0].attempts, 12);
    assert_eq!(connectors[0].successes, 7);
    // Thompson state untouched by the window policy.
    assert_eq!(connectors[0].alpha, SCALE);
    assert_eq!(connectors[0].beta, SCALE);
}

#[test]
fn ucb_bonus_decreases_with_window_length() {
    // Two connectors with the same windowed rate 1/2 but different window
    // lengths: the shorter window carries the larger exploration bonus,
    // so it must be selected even when listed second.
    let policy = SlidingWindowUCB::new(8, 2_000_000_000);
    let mut connectors = vec![
        PaymentConnector::new("long".to_string(), 8),
        PaymentConnector::new("short".to_string(), 8),
    ];
    for &o in [true, true, false, false].iter() {
        policy.update(&mut connectors, 0, o);
    }
    for &o in [true, false].iter() {
        policy.update(&mut connectors, 1, o);
    }
    assert_eq!(policy.select(&connectors), Ok(1));
}

#[test]
fn ucb_select_rejects_empty_set() {
    let policy = SlidingWindowUCB::new(5, 2_000_000_000);
    let connectors: Vec<PaymentConnector> = Vec::new();
    assert_eq!(policy.select(&connectors), Err(RoutingError::NoCandidates));
}

#[test]
fn ucb_select_guards_zero_total_attempts() {
    // A non-empty window with no recorded attempts anywhere is corrupt
    // bookkeeping; the logarithm's guard reports it instead of dividing.
    let policy = SlidingWindowUCB::new(5, 2_000_000_000);
    let mut connectors = vec![PaymentConnector::new("a".to_string(), 5)];
    connectors[0].window.push(true);
    assert_eq!(
        policy.select(&connectors),
        Err(RoutingError::DivisionUndefined)
    );
}

#[test]
fn ucb_forced_exploration_never_repeats() {
    // Five untried connectors: the first five selections pick each
    // exactly once, in index order, whatever the outcomes.
    let policy = ActivePolicy::SlidingWindowUCB(SlidingWindowUCB::new(5, 2_000_000_000));
    let mut engine = RoutingEngine::initialize(names(&["a", "b", "c", "d", "e"]), policy);
    let no_samples: Vec<u64> = Vec::new();
    let mut seen: Vec<String> = Vec::new();
    for round in 0..5 {
        let picked = engine.select(&no_samples).expect("selection should succeed");
        assert!(
            !seen.contains(&picked),
            "round {} repeated connector {}",
            round,
            picked
        );
        seen.push(picked.clone());
        engine
            .report_outcome(&picked, round % 2 == 0)
            .expect("known connector");
    }
    assert_eq!(seen, names(&["a", "b", "c", "d", "e"]));
}

#[test]
fn change_detector_threshold_cases() {
    // History [0.5, 0.5, 0.5, 0.9]: mean 0.6, newest 0.9, deviation 0.3.
    let history = vec![500_000_000, 500_000_000, 500_000_000, 900_000_000];
    assert!(detect_significant_change(&history, 200_000_000));
    assert!(!detect_significant_change(&history, 350_000_000));
    // Exactly at the threshold: deviation must be strictly greater.
    assert!(!detect_significant_change(&history, 300_000_000));
    // Fewer than two entries never signals.
    assert!(!detect_significant_change(&vec![900_000_000], 0));
    assert!(!detect_significant_change(&Vec::new(), 0));
}

#[test]
fn engine_detect_change_signals_thompson_only() {
    let policy = ActivePolicy::ThompsonSampling(ThompsonSampling::new(
        950_000_000,
        8,
        200_000_000,
    ));
    let mut engine = RoutingEngine::initialize(names(&["a", "b"]), policy);
    engine.connectors[0].rate_history =
        vec![500_000_000, 500_000_000, 500_000_000, 900_000_000];
    assert_eq!(engine.detect_change(&"a".to_string()), Ok(true));
    assert_eq!(engine.detect_change(&"b".to_string()), Ok(false));
    assert_eq!(
        engine.detect_change(&"z".to_string()),
        Err(RoutingError::UnknownConnector)
    );

    let ucb = ActivePolicy::SlidingWindowUCB(SlidingWindowUCB::new(5, 2_000_000_000));
    let other = RoutingEngine::initialize(names(&["a"]), ucb);
    assert_eq!(
        other.detect_change(&"a".to_string()),
        Err(RoutingError::UnsupportedOperation)
    );
}

#[test]
fn engine_select_reports_identifier_and_errors() {
    let policy = ActivePolicy::ThompsonSampling(ThompsonSampling::new(
        950_000_000,
        8,
        200_000_000,
    ));
    let engine = RoutingEngine::initialize(names(&["a", "b", "c"]), policy);
    let samples = vec![3, 9, 1];
    assert_eq!(engine.select(&samples), Ok("b".to_string()));

    let empty_policy = ActivePolicy::ThompsonSampling(ThompsonSampling::new(
        950_000_000,
        8,
        200_000_000,
    ));
    let empty = RoutingEngine::initialize(Vec::new(), empty_policy);
    assert_eq!(
        empty.select(&Vec::new()),
        Err(RoutingError::NoCandidates)
    );
}

#[test]
fn engine_report_outcome_unknown_connector() {
    let policy = ActivePolicy::SlidingWindowUCB(SlidingWindowUCB::new(5, 2_000_000_000));
    let mut engine = RoutingEngine::initialize(names(&["a"]), policy);
    assert_eq!(
        engine.report_outcome(&"nope".to_string(), true),
        Err(RoutingError::UnknownConnector)
    );
    assert_eq!(engine.report_outcome(&"a".to_string(), true), Ok(()));
    assert_eq!(engine.connectors[0].attempts, 1);
}

#[test]
fn engine_inspect_state_snapshot() {
    let policy = ActivePolicy::SlidingWindowUCB(SlidingWindowUCB::new(5, 2_000_000_000));
    let mut engine = RoutingEngine::initialize(names(&["a", "b"]), policy);
    engine.report_outcome(&"b".to_string(), true).unwrap();
    engine.report_outcome(&"b".to_string(), false).unwrap();
    let snap = engine.inspect_state(&"b".to_string()).expect("known");
    assert_eq!(snap.alpha, SCALE);
    assert_eq!(snap.beta, SCALE);
    assert_eq!(snap.attempts, 2);
    assert_eq!(snap.successes, 1);
    assert_eq!(snap.window, vec![true, false]);
    assert_eq!(
        engine.inspect_state(&"c".to_string()).err(),
        Some(RoutingError::UnknownConnector)
    );
}

#[test]
fn trait_interface_dispatches_both_policies() {
    let mut connectors = vec![
        PaymentConnector::new("a".to_string(), 5),
        PaymentConnector::new("b".to_string(), 5),
    ];
    let mut thompson = ThompsonSampling::new(950_000_000, 8, 200_000_000);
    let samples = vec![2, 7];
    assert_eq!(thompson.select_connector(&connectors, &samples), Ok(1));
    thompson.update_connector(&mut connectors, 1, true);
    assert_eq!(connectors[1].alpha, 1_950_000_000);

    let mut ucb = SlidingWindowUCB::new(5, 2_000_000_000);
    // Both windows empty: forced exploration returns the first index,
    // whatever the samples say.
    assert_eq!(ucb.select_connector(&connectors, &samples), Ok(0));
    ucb.update_connector(&mut connectors, 0, false);
    assert_eq!(connectors[0].window, vec![false]);
    assert_eq!(connectors[0].attempts, 1);
}

#[test]
fn thompson_pseudo_counts_stay_positive() {
    // The smallest admissible discount factor, one nano, drives alpha to
    // the fixed-point floor on repeated failures; it must never reach 0.
    let policy = ThompsonSampling::new(1, 4, 0);
    let mut connectors = vec![PaymentConnector::new("a".to_string(), 5)];
    for _ in 0..50 {
        policy.update(&mut connectors, 0, false);
        assert!(connectors[0].alpha > 0);
        assert!(connectors[0].beta > 0);
        assert!(connectors[0].rate_history.len() <= 4);
    }
    assert_eq!(connectors[0].alpha, 1);
}

#[test]
fn engine_thompson_full_round() {
    let policy = ActivePolicy::ThompsonSampling(ThompsonSampling::new(
        950_000_000,
        8,
        200_000_000,
    ));
    let mut engine = RoutingEngine::initialize(names(&["a", "b", "c"]), policy);
    let samples = vec![100_000_000, 800_000_000, 400_000_000];
    let picked = engine.select(&samples).expect("selection should succeed");
    assert_eq!(picked, "b");
    engine.report_outcome(&picked, true).expect("known connector");
    let snap = engine.inspect_state(&picked).expect("known connector");
    assert_eq!(snap.alpha, 1_950_000_000);
    assert_eq!(snap.beta, SCALE);
    // One rate snapshot exists, so the detector still sees too little
    // history to signal.
    assert_eq!(engine.detect_change(&picked), Ok(false));
}

#[test]
fn end_to_end_converges_to_reliable_connector() {
    // Five connectors; only "a" ever succeeds. With W = 5 and c = 2.0 the
    // first five rounds explore every connector once; as failures build up
    // the others' bonuses, "a"'s windowed rate of 1.0 comes to dominate
    // and selection settles on "a".
    let policy = ActivePolicy::SlidingWindowUCB(SlidingWindowUCB::new(5, 2_000_000_000));
    let mut engine = RoutingEngine::initialize(names(&["a", "b", "c", "d", "e"]), policy);
    let no_samples: Vec<u64> = Vec::new();
    let mut picks: Vec<String> = Vec::new();
    for _ in 0..20 {
        let picked = engine.select(&no_samples).expect("selection should succeed");
        let success = picked == "a";
        engine.report_outcome(&picked, success).expect("known connector");
        picks.push(picked);
    }
    assert_eq!(&picks[..5], &names(&["a", "b", "c", "d", "e"])[..]);
    let tail: Vec<&String> = picks.iter().skip(15).collect();
    assert!(
        tail.iter().all(|p| p.as_str() == "a"),
        "selection did not settle on the reliable connector: {:?}",
        picks
    );
}
