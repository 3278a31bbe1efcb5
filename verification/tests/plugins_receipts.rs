use kraftverk::candidate::{Candidate, KnobValue};
use kraftverk::hill_climb::{HillClimbStrategy, SearchProgress};
use kraftverk::plugins::{
    list_search_plugins, resolve_search_plugin, SearchAlgorithm, PLUGIN_BAYESIAN, PLUGIN_EPSILON_GREEDY,
    PLUGIN_HILL_CLIMB,
};
use kraftverk::receipts::{evidence_hash, receipt_verifies, validate_receipt};

#[test]
fn creates_hill_climb() {
    let p = resolve_search_plugin(PLUGIN_HILL_CLIMB).unwrap();
    assert_eq!(p.strategy_name(), "hill_climb");
    assert_eq!(HillClimbStrategy::new(1).name(), "hill_climb");
}

#[test]
fn creates_epsilon_and_bayesian() {
    let e = resolve_search_plugin(PLUGIN_EPSILON_GREEDY).unwrap();
    assert_eq!(e.strategy_name(), "epsilon_greedy");
    let b = resolve_search_plugin(PLUGIN_BAYESIAN).unwrap();
    assert_eq!(b.strategy_name(), "bayesian");
}

fn mock_reading(key: &str) -> KnobValue {
    match key {
        "bench.worker_threads" | "bench.rayon_threads" => KnobValue::Int(4),
        "process.priority" => KnobValue::Text("normal".into()),
        "process.affinity" => KnobValue::Text("all".into()),
        other => panic!("unknown key {other}"),
    }
}

#[test]
fn search_plugin_registry_lists_and_creates() {
    let plugins = list_search_plugins();
    assert!(plugins.iter().any(|p| p.id == PLUGIN_HILL_CLIMB && p.available));
    assert_eq!(resolve_search_plugin(PLUGIN_HILL_CLIMB).unwrap(), SearchAlgorithm::HillClimb);
    let mut strategy = HillClimbStrategy::new(99);
    let ctx = SearchProgress {
        generation: 0,
        experiments_done: 0,
        plateau_count: 0,
        last_class: None,
        elapsed_secs: 0,
        max_experiments: 3,
        time_budget_secs: 30,
        plateau_limit: 2,
    };
    assert_eq!(ctx.hill_climb_stop_reason(), None);
    strategy.ensure_neighborhood(8, Some(4), Some(4), Some("normal".into()), Some("all".into()));
    let best = Candidate::identity();
    let mut proposed = None;
    while let Some(key) = strategy.pending_key() {
        if let Some(c) = strategy.consider(mock_reading(&key), ctx.generation, &best) {
            proposed = Some(c);
            break;
        }
    }
    let c = proposed.expect("unexpected stop");
    assert!(!c.changes.is_empty());
}

#[test]
fn evidence_hash_is_hex_sha256() {
    assert_eq!(
        evidence_hash(&b"abc".to_vec()),
        "ba7816bf8f01cfea414140de5dae2223b00361a396177a9cb410ff61f20015ad"
    );
    assert_eq!(evidence_hash(&b"abc".to_vec()), evidence_hash(&b"abc".to_vec()));
    assert_ne!(evidence_hash(&b"abc".to_vec()), evidence_hash(&b"abd".to_vec()));
}

#[test]
fn receipt_checks_in_order() {
    let h = evidence_hash(&b"{}".to_vec());
    assert!(receipt_verifies("kraftverk.receipt", 1, &h, &h));
    assert!(!receipt_verifies("kraftverk.receipt", 2, &h, &h));
    assert!(!receipt_verifies("kraftverk.receipt", 1, "00", &h));
    assert_eq!(validate_receipt("kraftverk.receipt", 1, &h, &h), Ok(()));
    assert_eq!(validate_receipt("other", 2, "00", &h), Err("unknown format 'other'".to_string()));
    assert_eq!(
        validate_receipt("kraftverk.receipt", 2, "00", &h),
        Err("unsupported receipt version 2".to_string())
    );
    assert_eq!(
        validate_receipt("kraftverk.receipt", 1, "00", &h),
        Err("evidence hash mismatch".to_string())
    );
}

#[test]
fn search_strategy_emits_candidates() {
    let mut strategy = HillClimbStrategy::new(42);
    let ctx = SearchProgress {
        generation: 0,
        experiments_done: 0,
        plateau_count: 0,
        last_class: None,
        elapsed_secs: 0,
        max_experiments: 5,
        time_budget_secs: 60,
        plateau_limit: 4,
    };
    assert_eq!(ctx.hill_climb_stop_reason(), None);
    strategy.ensure_neighborhood(8, Some(4), Some(4), Some("normal".into()), Some("all".into()));
    let best = Candidate::identity();
    let mut proposed = None;
    while let Some(key) = strategy.pending_key() {
        if let Some(c) = strategy.consider(mock_reading(&key), ctx.generation, &best) {
            proposed = Some(c);
            break;
        }
    }
    let c = proposed.expect("unexpected stop");
    assert!(!c.changes.is_empty());
    assert_eq!(c.meta.get_index(0), Some((&"strategy".to_string(), &"hill_climb".to_string())));
    assert_eq!(c.meta.get_index(2), Some((&"seed".to_string(), &"42".to_string())));
}
