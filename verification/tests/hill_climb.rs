use kraftverk::candidate::{Candidate, KnobValue};
use kraftverk::classification::ComparisonClass;
use kraftverk::hill_climb::{plan_neighborhood, unique_thread_choices, HillClimbStrategy, SearchProgress};

fn progress(done: usize, elapsed: u64, plateau: usize, last: Option<ComparisonClass>) -> SearchProgress {
    SearchProgress {
        generation: 1,
        experiments_done: done,
        plateau_count: plateau,
        last_class: last,
        elapsed_secs: elapsed,
        max_experiments: 10,
        time_budget_secs: 60,
        plateau_limit: 4,
    }
}

#[test]
fn thread_choices_around_current() {
    assert_eq!(unique_thread_choices(8, 16), vec![1, 2, 6, 8, 10, 12, 16]);
    assert_eq!(unique_thread_choices(0, 0), vec![1, 2]);
    assert_eq!(unique_thread_choices(4, 4), vec![1, 2, 3, 4]);
    assert_eq!(unique_thread_choices(100, 128), vec![1, 2, 64]);
}

#[test]
fn thread_choices_sorted_and_unique() {
    for cur in 0..40usize {
        for logical in 0..40usize {
            let v = unique_thread_choices(cur, logical);
            for w in v.windows(2) {
                assert!(w[0] < w[1]);
            }
            for &x in &v {
                assert!(x >= 1 && x <= logical.max(1) * 2 && x <= 64);
            }
        }
    }
}

#[test]
fn stop_reasons_in_order() {
    assert_eq!(progress(10, 0, 0, None).hill_climb_stop_reason().as_deref(), Some("max experiments reached"));
    assert_eq!(progress(0, 60, 0, None).hill_climb_stop_reason().as_deref(), Some("time budget exhausted"));
    assert_eq!(progress(0, 0, 4, None).hill_climb_stop_reason().as_deref(), Some("plateau detected"));
    assert_eq!(
        progress(0, 0, 2, Some(ComparisonClass::UnstableResult)).hill_climb_stop_reason().as_deref(),
        Some("unstable results")
    );
    assert_eq!(progress(0, 0, 1, Some(ComparisonClass::UnstableResult)).hill_climb_stop_reason(), None);
    assert_eq!(progress(0, 0, 2, Some(ComparisonClass::UnstableResult)).budget_stop_reason(), None);
}

fn keys(v: &[kraftverk::candidate::ParamChange]) -> Vec<String> {
    v.iter().map(|c| c.key.clone()).collect()
}

#[test]
fn neighborhood_prefers_priority_then_nearby_threads() {
    let v = plan_neighborhood(0, 4, Some(4), Some(4), Some("normal".into()), Some("all".into()));
    assert_eq!(
        keys(&v),
        vec![
            "process.priority",
            "process.affinity",
            "bench.worker_threads",
            "bench.rayon_threads",
            "bench.worker_threads",
            "bench.rayon_threads",
            "bench.worker_threads",
            "bench.rayon_threads",
        ]
    );
    assert_eq!(v[0].rationale, "Try process priority normal->above_normal");
    assert_eq!(v[1].rationale, "Try affinity all->first_half");
    assert_eq!(v[2].rationale, "Hill-climb worker_threads 4->3 to test parallel scaling");
    assert_eq!(v[3].rationale, "Hill-climb rayon_threads 4->3");
    assert!(matches!(v[6].next, KnobValue::Int(1)));
}

#[test]
fn neighborhood_seed_swaps_within_band() {
    let v = plan_neighborhood(1, 4, Some(4), Some(4), Some("normal".into()), Some("all".into()));
    assert_eq!(v[0].key, "process.affinity");
    assert_eq!(v[1].key, "process.priority");
}

#[test]
fn neighborhood_defaults_and_small_machines() {
    let v = plan_neighborhood(0, 2, None, None, None, Some("all".into()));
    // workers default to min(logical, 8) = 2; choices 1..=2; no affinity below 4 CPUs
    assert_eq!(keys(&v), vec!["bench.worker_threads", "bench.rayon_threads"]);
    assert!(matches!(v[0].previous, KnobValue::Int(2)));
    assert!(matches!(v[0].next, KnobValue::Int(1)));
}

#[test]
fn strategy_proposes_each_change_once() {
    let mut hc = HillClimbStrategy::new(7);
    assert_eq!(hc.name(), "hill_climb");
    assert_eq!(hc.seed(), 7);
    assert!(hc.needs_neighborhood());
    hc.ensure_neighborhood(4, Some(4), Some(4), Some("normal".into()), Some("all".into()));
    assert!(!hc.needs_neighborhood());
    let best = Candidate::identity();
    // seed 7 swaps the first two moves: affinity comes first.
    assert_eq!(hc.pending_key().as_deref(), Some("process.affinity"));
    let c = hc.consider(KnobValue::Text("all".into()), 3, &best).unwrap();
    assert_eq!(c.id, "hc-3-1");
    assert_eq!(c.label, "process.affinity=first_half");
    assert_eq!(c.meta.get_index(0), Some((&"strategy".to_string(), &"hill_climb".to_string())));
    assert_eq!(c.meta.get_index(1), Some((&"generation".to_string(), &"3".to_string())));
    assert_eq!(c.meta.get_index(2), Some((&"seed".to_string(), &"7".to_string())));
    assert!(matches!(&c.changes[0].previous, KnobValue::Text(t) if t == "all"));
    // the platform already runs above_normal: nothing to try
    assert_eq!(hc.pending_key().as_deref(), Some("process.priority"));
    assert!(hc.consider(KnobValue::Text("above_normal".into()), 3, &best).is_none());
    // the current best overrides the reading
    let with_workers = hc.consider(KnobValue::Int(4), 3, &c).unwrap();
    assert_eq!(with_workers.label, "process.affinity=first_half,bench.worker_threads=3");
    assert_eq!(with_workers.id, "hc-3-3");
}

#[test]
fn strategy_folds_same_key_into_best() {
    let mut hc = HillClimbStrategy::new(0);
    hc.ensure_neighborhood(2, Some(2), Some(2), None, None);
    let mut best = Candidate::identity();
    best.changes.push(kraftverk::candidate::ParamChange {
        key: "bench.worker_threads".into(),
        previous: KnobValue::Int(8),
        next: KnobValue::Int(2),
        rationale: "earlier".into(),
    });
    let c = hc.consider(KnobValue::Int(2), 0, &best).unwrap();
    assert_eq!(c.changes.len(), 1);
    assert!(matches!(c.changes[0].previous, KnobValue::Int(8)));
    assert!(matches!(c.changes[0].next, KnobValue::Int(1)));
}

#[test]
fn strategy_walks_whole_neighborhood() {
    let mut hc = HillClimbStrategy::new(0);
    hc.ensure_neighborhood(2, Some(2), Some(2), None, None);
    let best = Candidate::identity();
    let first = hc.consider(KnobValue::Int(2), 0, &best).unwrap();
    assert_eq!(first.label, "bench.worker_threads=1");
    // rayon 2->1 has different content and is proposed
    assert_eq!(hc.consider(KnobValue::Int(2), 0, &best).unwrap().label, "bench.rayon_threads=1");
    assert_eq!(hc.pending_key(), None);
}

#[test]
fn skip_moves_past_unreadable_change() {
    let order = plan_neighborhood(5, 8, Some(4), Some(4), Some("normal".into()), Some("all".into()));
    let mut s = HillClimbStrategy::new(5);
    s.ensure_neighborhood(8, Some(4), Some(4), Some("normal".into()), Some("all".into()));
    assert_eq!(s.pending_key(), Some(order[0].key.clone()));
    s.skip_pending();
    assert_eq!(s.pending_key(), Some(order[1].key.clone()));
    for _ in 1..order.len() {
        s.skip_pending();
    }
    assert_eq!(s.pending_key(), None);
}

#[test]
fn run_of_calls_never_repeats_a_content_hash() {
    let mut hc = HillClimbStrategy::new(3);
    hc.ensure_neighborhood(8, Some(4), Some(4), Some("normal".into()), Some("all".into()));
    // Reading the same values each time with an unchanged best, and with a
    // best that already holds each proposal, across two generations.
    let mut hashes: Vec<String> = Vec::new();
    let mut best = Candidate::identity();
    let mut step = 0;
    while let Some(key) = hc.pending_key() {
        let reading = match key.as_str() {
            "process.priority" => KnobValue::Text("normal".into()),
            "process.affinity" => KnobValue::Text("all".into()),
            _ => KnobValue::Int(4),
        };
        if step % 3 == 2 {
            hc.skip_pending();
        } else if let Some(c) = hc.consider(reading, step, &best) {
            let h = c.content_hash();
            assert!(!hashes.contains(&h));
            hashes.push(h);
            if step % 2 == 0 {
                best = c;
            }
        }
        step += 1;
    }
    assert!(hashes.len() >= 2);
}
