use kraftverk::candidate::{Candidate, KnobValue, ParamChange};

fn change(key: &str, previous: KnobValue, next: KnobValue) -> ParamChange {
    ParamChange { key: key.into(), previous, next, rationale: "test".into() }
}

#[test]
fn identity_has_no_changes() {
    let c = Candidate::identity();
    assert!(c.is_identity());
    assert_eq!(c.id, "identity");
    assert_eq!(c.summary_line(), "no changes");
}

#[test]
fn content_hash_exact_value() {
    let mut c = Candidate::identity();
    c.changes.push(change("bench.worker_threads", KnobValue::Int(4), KnobValue::Int(6)));
    assert_eq!(c.content_hash(), "92e5596cbc17aad7");
}

#[test]
fn content_hash_ignores_order_and_labels() {
    let mut a = Candidate::identity();
    a.changes.push(change("process.priority", KnobValue::Text("normal".into()), KnobValue::Text("above_normal".into())));
    a.changes.push(change("bench.worker_threads", KnobValue::Int(4), KnobValue::Int(6)));
    let mut b = Candidate::identity();
    b.id = "other".into();
    b.changes.push(change("bench.worker_threads", KnobValue::Int(1), KnobValue::Int(6)));
    b.changes.push(change("process.priority", KnobValue::Text("high".into()), KnobValue::Text("above_normal".into())));
    assert_eq!(a.content_hash(), b.content_hash());
    assert_eq!(a.content_hash(), "7099bbe4bbccdc78");
}

#[test]
fn summary_line_lists_changes() {
    let mut c = Candidate::identity();
    c.changes.push(change("bench.worker_threads", KnobValue::Int(4), KnobValue::Int(6)));
    c.changes.push(change("x.flag", KnobValue::Flag(false), KnobValue::Flag(true)));
    assert_eq!(c.summary_line(), "bench.worker_threads=4\u{2192}6, x.flag=false\u{2192}true");
    assert!(!c.is_identity());
}

#[test]
fn values_display_and_compare() {
    assert_eq!(KnobValue::Int(-12).display(), "-12");
    assert_eq!(KnobValue::Text("all".into()).display(), "all");
    assert_eq!(KnobValue::Int(5).as_usize(), Some(5));
    assert_eq!(KnobValue::Int(-5).as_usize(), None);
    assert_eq!(KnobValue::Text("5".into()).as_i64(), None);
    assert!(KnobValue::Text("a".into()).same_as(&KnobValue::Text("a".into())));
    assert!(!KnobValue::Int(1).same_as(&KnobValue::Flag(true)));
}
