use kraftverk::candidate::{KnobValue, ParamChange};
use kraftverk::error::Error;
use kraftverk::native::{
    parse_affinity_mask, plan_native_change, rollback_of, NativeAction, NativeParams, PriorityLevel,
};

#[test]
fn priority_levels_parse_ignoring_case() {
    assert_eq!(PriorityLevel::parse("Normal"), Some(PriorityLevel::Normal));
    assert_eq!(PriorityLevel::parse("ABOVE-normal"), Some(PriorityLevel::AboveNormal));
    assert_eq!(PriorityLevel::parse("above_normal"), Some(PriorityLevel::AboveNormal));
    assert_eq!(PriorityLevel::parse("high"), Some(PriorityLevel::High));
    assert_eq!(PriorityLevel::parse("realtime"), None);
    assert_eq!(PriorityLevel::High.as_str(), "high");
    assert_eq!(PriorityLevel::AboveNormal.nice_value(), -5);
}

#[test]
fn affinity_masks() {
    assert_eq!(parse_affinity_mask("all", 8).unwrap(), 0xFF);
    assert_eq!(parse_affinity_mask("all", 64).unwrap(), u64::MAX);
    assert_eq!(parse_affinity_mask("all", 200).unwrap(), u64::MAX);
    assert_eq!(parse_affinity_mask("even", 8).unwrap(), 0b0101_0101);
    assert_eq!(parse_affinity_mask("odd", 8).unwrap(), 0b1010_1010);
    assert_eq!(parse_affinity_mask("first_half", 8).unwrap(), 0b1111);
    assert_eq!(parse_affinity_mask("first_half", 1).unwrap(), 0b1);
    assert_eq!(parse_affinity_mask("all", 0).unwrap(), 0);
    match parse_affinity_mask("ALL", 8) {
        Err(Error::InvalidConfig(m)) => {
            assert_eq!(m, "unsupported affinity spec 'ALL' (use all|even|odd|first_half)")
        }
        other => panic!("unexpected {other:?}"),
    }
}

#[test]
fn thread_changes_are_range_checked() {
    assert!(matches!(
        plan_native_change("bench.worker_threads", &KnobValue::Int(16), 8),
        Ok(NativeAction::SetWorkers(16))
    ));
    assert!(matches!(
        plan_native_change("bench.rayon_threads", &KnobValue::Int(1), 8),
        Ok(NativeAction::SetRayon(1))
    ));
    match plan_native_change("bench.worker_threads", &KnobValue::Int(17), 8) {
        Err(Error::InvalidConfig(m)) => assert_eq!(m, "worker_threads 17 out of safe range"),
        other => panic!("unexpected {other:?}"),
    }
    match plan_native_change("bench.rayon_threads", &KnobValue::Int(0), 8) {
        Err(Error::InvalidConfig(m)) => assert_eq!(m, "rayon_threads 0 out of safe range"),
        other => panic!("unexpected {other:?}"),
    }
    match plan_native_change("bench.worker_threads", &KnobValue::Text("4".into()), 8) {
        Err(Error::InvalidConfig(m)) => assert_eq!(m, "worker_threads must be int"),
        other => panic!("unexpected {other:?}"),
    }
}

#[test]
fn process_changes_are_checked() {
    assert!(matches!(
        plan_native_change("process.priority", &KnobValue::Text("Above_Normal".into()), 8),
        Ok(NativeAction::SetPriority(PriorityLevel::AboveNormal))
    ));
    match plan_native_change("process.priority", &KnobValue::Text("bad".into()), 8) {
        Err(Error::InvalidConfig(m)) => assert_eq!(m, "unsupported priority level bad"),
        other => panic!("unexpected {other:?}"),
    }
    match plan_native_change("process.priority", &KnobValue::Int(1), 8) {
        Err(Error::InvalidConfig(m)) => assert_eq!(m, "process.priority must be string"),
        other => panic!("unexpected {other:?}"),
    }
    assert!(matches!(
        plan_native_change("process.affinity", &KnobValue::Text("even".into()), 8),
        Ok(NativeAction::SetAffinity(s)) if s == "even"
    ));
    match plan_native_change("process.affinity", &KnobValue::Flag(true), 8) {
        Err(Error::InvalidConfig(m)) => assert_eq!(m, "process.affinity must be string"),
        other => panic!("unexpected {other:?}"),
    }
    match plan_native_change("gpu.clock", &KnobValue::Int(1), 8) {
        Err(Error::Unsupported(m)) => {
            assert_eq!(m, "parameter 'gpu.clock' is not applied in Milestone 1 native platform")
        }
        other => panic!("unexpected {other:?}"),
    }
}

#[test]
fn rollback_swaps_values() {
    let c = ParamChange {
        key: "bench.worker_threads".into(),
        previous: KnobValue::Int(4),
        next: KnobValue::Int(6),
        rationale: "try".into(),
    };
    let r = rollback_of(&c);
    assert!(matches!(r.previous, KnobValue::Int(6)));
    assert!(matches!(r.next, KnobValue::Int(4)));
    assert_eq!(r.rationale, "rollback");
}

#[test]
fn apply_then_rollback_restores_table() {
    let mut p = NativeParams::detected(8);
    let change = ParamChange {
        key: "bench.worker_threads".into(),
        previous: KnobValue::Int(8),
        next: KnobValue::Int(6),
        rationale: "try".into(),
    };
    p.set(&change.key, change.next.clone());
    assert!(p.holds("bench.worker_threads", &KnobValue::Int(6)));
    let back = rollback_of(&change);
    p.set(&back.key, back.next.clone());
    let fresh = NativeParams::detected(8);
    for key in ["bench.worker_threads", "bench.rayon_threads", "process.priority", "process.affinity"] {
        assert!(p.read(key).unwrap().same_as(&fresh.read(key).unwrap()));
    }
    let twice = rollback_of(&back);
    assert_eq!(twice.key, change.key);
    assert!(twice.previous.same_as(&change.previous));
    assert!(twice.next.same_as(&change.next));
}
