use kraftverk::candidate::{Candidate, KnobValue, ParamChange};
use kraftverk::recovery::{rollback_before, RecoveryJournal};

fn change(key: &str, from: i64, to: i64) -> ParamChange {
    ParamChange { key: key.into(), previous: KnobValue::Int(from), next: KnobValue::Int(to), rationale: "t".into() }
}

fn candidate() -> Candidate {
    let mut c = Candidate::identity();
    c.changes = vec![change("a", 1, 2), change("b", 3, 4), change("c", 5, 6)];
    c
}

#[test]
fn journal_lifecycle() {
    let mut j = RecoveryJournal::new();
    assert!(j.interrupted().is_none());
    j.record_applied(&change("a", 1, 2));
    assert!(j.record.is_none());
    j.begin("exp-1", candidate(), "2024-01-01T00:00:00Z".into());
    assert_eq!(j.interrupted().map(|r| r.status.as_str()), Some("running"));
    j.record_applied(&change("a", 1, 2));
    let r = j.interrupted().unwrap();
    assert_eq!(r.status, "applied");
    assert_eq!(r.applied.len(), 1);
    j.fail("crash");
    let r = j.interrupted().unwrap();
    assert_eq!(r.status, "failed");
    assert_eq!(r.last_error.as_deref(), Some("crash"));
    j.complete();
    assert!(j.interrupted().is_none());
    assert_eq!(j.record.as_ref().map(|r| r.status.as_str()), Some("complete"));
    j.clear();
    assert!(j.record.is_none());
}

#[test]
fn recovery_rolls_back_applied_then_declared() {
    let mut j = RecoveryJournal::new();
    j.begin("exp-int", candidate(), "t".into());
    j.record_applied(&change("a", 1, 2));
    j.record_applied(&change("b", 3, 4));
    let (first, second) = j.interrupted().unwrap().recovery_steps();
    let k1: Vec<&str> = first.iter().map(|c| c.key.as_str()).collect();
    let k2: Vec<&str> = second.iter().map(|c| c.key.as_str()).collect();
    assert_eq!(k1, vec!["b", "a"]);
    assert_eq!(k2, vec!["c"]);
    j.rolled_back();
    assert_eq!(j.record.as_ref().map(|r| r.status.as_str()), Some("rolled_back"));
}

#[test]
fn failed_apply_rolls_back_prefix() {
    let c = candidate();
    let keys = |v: Vec<ParamChange>| v.into_iter().map(|c| c.key).collect::<Vec<_>>();
    assert_eq!(keys(rollback_before(&c.changes, "c")), vec!["a", "b"]);
    assert_eq!(keys(rollback_before(&c.changes, "a")), Vec::<String>::new());
    assert_eq!(keys(rollback_before(&c.changes, "zzz")), vec!["a", "b", "c"]);
}
