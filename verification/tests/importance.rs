use kraftverk::goals::OptimizeGoal;
use kraftverk::objectives::{objective_notes, ImportanceStat, ParamImportance};

fn counts(p: &ParamImportance) -> Vec<(String, u32, u32)> {
    p.counts.iter().map(|(k, s)| (k.clone(), s.trials, s.accepts)).collect()
}

#[test]
fn record_counts_trials_and_accepts_in_key_order() {
    let mut p = ParamImportance::default();
    p.record("process.priority", true);
    p.record("bench.worker_threads", false);
    p.record("process.priority", false);
    p.record("bench.rayon_threads", true);
    assert_eq!(
        counts(&p),
        vec![
            ("bench.rayon_threads".to_string(), 1, 1),
            ("bench.worker_threads".to_string(), 1, 0),
            ("process.priority".to_string(), 2, 1),
        ]
    );
}

#[test]
fn default_stat_is_zero() {
    let s = ImportanceStat::default();
    assert_eq!((s.trials, s.accepts), (0, 0));
}

#[test]
fn notes_per_goal() {
    assert_eq!(
        objective_notes(OptimizeGoal::Efficiency, true),
        vec!["Efficiency uses score-per-worker when worker count is known."]
    );
    assert_eq!(
        objective_notes(OptimizeGoal::Quiet, false),
        vec!["Thermal frontier unavailable without temperature sensors; not fabricated."]
    );
    assert!(objective_notes(OptimizeGoal::Sustained, true).is_empty());
    assert_eq!(
        objective_notes(OptimizeGoal::Gaming, true),
        vec!["GPU contribution unsupported; objective uses CPU/realtime proxies only."]
    );
    assert!(objective_notes(OptimizeGoal::Compile, false).is_empty());
}

#[test]
fn rejected_trial_leaves_accepts_alone() {
    let mut p = ParamImportance { counts: vec![("k".to_string(), ImportanceStat { trials: 5, accepts: u32::MAX })] };
    p.record("k", false);
    assert_eq!(p.counts[0].1.trials, 6);
    assert_eq!(p.counts[0].1.accepts, u32::MAX);
}
