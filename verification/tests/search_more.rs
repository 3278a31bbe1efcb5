use kraftverk::bandit::epsilon_arm_changes;
use kraftverk::candidate::{fold_change, KnobValue, ParamChange};
use kraftverk::lineage::{lineage_selection, LineageEntry};
use kraftverk::native::{mode_allowed, NativeParams};
use kraftverk::config::OptimizeMode;
use kraftverk::error::Error;

fn labels(v: &[ParamChange]) -> Vec<String> {
    v.iter().map(|c| format!("{}={}", c.key, c.next.display())).collect()
}

#[test]
fn epsilon_arms_dedup_and_filter() {
    let v = epsilon_arm_changes(2, Some(2), Some("normal".into()));
    // candidates 1, 2, 1, 2, 2: only 1 differs from the current 2; it is kept once
    assert_eq!(labels(&v), vec!["bench.worker_threads=1", "process.priority=above_normal"]);
    assert_eq!(v[0].rationale, "\u{3b5}-greedy arm worker_threads=1");
    let w = epsilon_arm_changes(16, None, None);
    // current defaults to 8: arms 1, 2, 16 (8 is the current count)
    assert_eq!(labels(&w), vec!["bench.worker_threads=1", "bench.worker_threads=2", "bench.worker_threads=16"]);
    assert!(matches!(w[0].previous, KnobValue::Int(8)));
}

#[test]
fn fold_updates_or_appends() {
    let best = vec![ParamChange {
        key: "bench.worker_threads".into(),
        previous: KnobValue::Int(8),
        next: KnobValue::Int(4),
        rationale: "old".into(),
    }];
    let same = fold_change(&best, ParamChange {
        key: "bench.worker_threads".into(),
        previous: KnobValue::Int(99),
        next: KnobValue::Int(2),
        rationale: "new".into(),
    });
    assert_eq!(same.len(), 1);
    assert!(matches!(same[0].previous, KnobValue::Int(8)));
    assert!(matches!(same[0].next, KnobValue::Int(2)));
    assert_eq!(same[0].rationale, "new");
    let other = fold_change(&best, ParamChange {
        key: "process.priority".into(),
        previous: KnobValue::Text("normal".into()),
        next: KnobValue::Text("high".into()),
        rationale: "r".into(),
    });
    assert_eq!(labels(&other), vec!["bench.worker_threads=4", "process.priority=high"]);
}

fn entry(id: &str, parent: Option<&str>) -> LineageEntry {
    LineageEntry { id: id.into(), parent_id: parent.map(|p| p.to_string()) }
}

#[test]
fn lineage_selects_ancestors_and_siblings() {
    let es = vec![
        entry("root", None),
        entry("a1", Some("root")),
        entry("a2", Some("root")),
        entry("b1", Some("a1")),
        entry("b2", Some("a1")),
        entry("c1", Some("b1")),
        entry("other", None),
    ];
    let (root, sel) = lineage_selection(&es, "b1");
    assert_eq!(root, "a1");
    assert_eq!(sel, vec![true, true, false, true, true, false, false]);
    let (root2, sel2) = lineage_selection(&es, "zz");
    assert_eq!(root2, "zz");
    assert!(sel2.iter().all(|s| !s));
    let (root3, sel3) = lineage_selection(&es, "a");
    // prefix match: focus is a1; every id starting with "a" is shown too
    assert_eq!(root3, "root");
    assert_eq!(sel3, vec![true, true, true, false, false, false, false]);
}

#[test]
fn lineage_terminates_on_cycles() {
    let es = vec![entry("x", Some("y")), entry("y", Some("x"))];
    let (root, sel) = lineage_selection(&es, "x");
    assert_eq!(root, "y");
    assert_eq!(sel, vec![true, true]);
}

#[test]
fn native_params_table() {
    let mut p = NativeParams::detected(32);
    assert!(matches!(p.read("bench.worker_threads"), Ok(KnobValue::Int(16))));
    assert!(matches!(p.read("process.affinity"), Ok(KnobValue::Text(t)) if t == "all"));
    match p.read("gpu.clock") {
        Err(Error::Unsupported(m)) => assert_eq!(m, "unknown or unsupported param gpu.clock"),
        other => panic!("unexpected {other:?}"),
    }
    p.set("bench.worker_threads", KnobValue::Int(6));
    assert!(p.holds("bench.worker_threads", &KnobValue::Int(6)));
    assert!(!p.holds("bench.worker_threads", &KnobValue::Int(16)));
    assert!(p.holds("bench.rayon_threads", &KnobValue::Int(16)));
    p.set("custom.key", KnobValue::Flag(true));
    assert!(p.holds("custom.key", &KnobValue::Flag(true)));
    assert_eq!(p.entries.len(), 5);
    assert!(matches!(NativeParams::detected(0).read("bench.rayon_threads"), Ok(KnobValue::Int(1))));
    assert!(mode_allowed(OptimizeMode::Aggressive).is_ok());
}
