use kraftverk::candidate::Candidate;
use kraftverk::capabilities::{Capabilities, FeatureSupport};
use kraftverk::classification::ComparisonClass;
use kraftverk::config::{OptimizeMode, RunConfig};
use kraftverk::experiment::{default_hardware_policy, StabilityVerdict};
use kraftverk::goals::OptimizeGoal;
use kraftverk::measurement::BenchmarkId;
use kraftverk::plugins::{default_plugin_for_mode, list_search_plugins, resolve_search_plugin, SearchAlgorithm};
use kraftverk::profiles::{list_profiles, recommend_profile, KraftProfile};
use kraftverk::session::{safe_mode_recommended, SessionStatus};
use kraftverk::error::Error;

#[test]
fn modes_parse_and_roundtrip() {
    assert_eq!(OptimizeMode::parse("SAFE"), Some(OptimizeMode::Safe));
    assert_eq!(OptimizeMode::parse("balanced"), Some(OptimizeMode::Balanced));
    assert_eq!(OptimizeMode::parse("turbo"), None);
    for m in [OptimizeMode::Safe, OptimizeMode::Balanced, OptimizeMode::Aggressive] {
        assert_eq!(OptimizeMode::parse(m.as_str()), Some(m));
        assert!(m.supported_without_agent());
        assert!(m.supported_in_m1());
    }
    assert_eq!(OptimizeMode::default(), OptimizeMode::Safe);
}

#[test]
fn run_config_defaults() {
    let c = RunConfig::default();
    assert_eq!((c.warmup, c.samples, c.seed, c.time_budget_secs), (2, 5, 42, 300));
    assert!(c.include_storage && c.include_system);
    assert!(!c.include_compile && !c.include_responsiveness && !c.include_scaling);
    assert_eq!(c.sustained_secs, 0);
}

#[test]
fn goals_roundtrip_and_suggest_modes() {
    let all = OptimizeGoal::all();
    assert_eq!(all.len(), 9);
    for g in all {
        assert_eq!(OptimizeGoal::parse(g.as_str()), Some(g));
        assert!(!g.description().is_empty());
    }
    assert_eq!(OptimizeGoal::parse("Gaming"), Some(OptimizeGoal::Gaming));
    assert_eq!(OptimizeGoal::parse("fast"), None);
    assert_eq!(OptimizeGoal::Gaming.suggested_mode(), OptimizeMode::Aggressive);
    assert_eq!(OptimizeGoal::Quiet.suggested_mode(), OptimizeMode::Safe);
    assert_eq!(OptimizeGoal::default(), OptimizeGoal::Balanced);
}

#[test]
fn comparison_classes() {
    assert!(ComparisonClass::ConfirmedImprovement.is_improvement());
    assert!(!ComparisonClass::ConfirmedImprovement.is_regression());
    assert!(ComparisonClass::LikelyRegression.is_regression());
    assert_eq!(ComparisonClass::UnstableResult.as_str(), "UNSTABLE_RESULT");
    assert_eq!(ComparisonClass::from_stored("NO_SIGNIFICANT_CHANGE"), Some(ComparisonClass::NoSignificantChange));
    assert_eq!(ComparisonClass::from_stored("nope"), None);
}

#[test]
fn stored_statuses() {
    assert_eq!(StabilityVerdict::from_stored("PASS"), StabilityVerdict::Pass);
    assert_eq!(StabilityVerdict::from_stored("garbage"), StabilityVerdict::Unknown);
    assert_eq!(SessionStatus::from_stored("crashed"), SessionStatus::Crashed);
    assert_eq!(SessionStatus::Paused.as_str(), "paused");
    assert_eq!(default_hardware_policy(), "amd-only-v1");
    assert!(!safe_mode_recommended(2));
    assert!(safe_mode_recommended(3));
}

#[test]
fn benchmark_ids() {
    let b = BenchmarkId::new("cpu.int");
    assert_eq!(b.as_str(), "cpu.int");
}

#[test]
fn capabilities_table() {
    let c = Capabilities::milestone1_safe();
    assert!(c.is_supported("bench.worker_threads"));
    assert!(c.is_supported("process.priority"));
    assert!(!c.is_supported("gpu.clock"));
    assert!(!c.is_supported("missing"));
    assert_eq!(c.get("power.scheme").map(|f| f.support), Some(FeatureSupport::RequiresPrivilege));
    assert_eq!(
        c.safe_param_keys(),
        vec!["bench.worker_threads", "bench.rayon_threads", "process.priority", "process.affinity"]
    );
    assert!(FeatureSupport::Partial.is_usable());
    assert!(!FeatureSupport::Unsupported.is_usable());
}

#[test]
fn plugins_resolve_aliases() {
    assert_eq!(list_search_plugins().len(), 4);
    assert!(matches!(resolve_search_plugin("default"), Ok(SearchAlgorithm::HillClimb)));
    assert!(matches!(resolve_search_plugin("bo"), Ok(SearchAlgorithm::Bayesian)));
    assert!(matches!(resolve_search_plugin("egreedy"), Ok(SearchAlgorithm::EpsilonGreedy)));
    match resolve_search_plugin("annealing") {
        Err(Error::InvalidConfig(m)) => assert_eq!(
            m,
            "search plugin 'annealing' is unavailable; try: hill-climb, safe-hill-climb, epsilon-greedy, bayesian"
        ),
        other => panic!("unexpected {other:?}"),
    }
    assert_eq!(default_plugin_for_mode("safe"), "safe-hill-climb");
    assert_eq!(default_plugin_for_mode("custom"), "hill-climb");
}

#[test]
fn profiles_cover_every_goal() {
    assert_eq!(list_profiles().len(), 11);
    for g in OptimizeGoal::all() {
        assert_eq!(recommend_profile(g).goal, g);
    }
    assert_eq!(recommend_profile(OptimizeGoal::Throughput).id, "throughput");
    assert_eq!(recommend_profile(OptimizeGoal::Balanced).id, "safe-default");
}

fn profile(format: &str, version: u32, id: &str, name: &str) -> KraftProfile {
    KraftProfile {
        format: format.into(),
        version,
        id: id.into(),
        name: name.into(),
        goal: OptimizeGoal::Balanced,
        mode: OptimizeMode::Safe,
        candidate: Candidate::identity(),
        machine_fingerprint: None,
        created_at: "2024-01-01T00:00:00Z".into(),
        notes: String::new(),
    }
}

#[test]
fn profile_validation_errors() {
    assert!(profile("kraftverk.profile", 1, "a", "b").validate().is_ok());
    assert_eq!(profile("other", 1, "a", "b").validate(), Err("unknown format 'other'".to_string()));
    assert_eq!(profile("kraftverk.profile", 2, "a", "b").validate(), Err("unsupported profile version 2".to_string()));
    assert_eq!(profile("kraftverk.profile", 0, "a", "b").validate(), Err("unsupported profile version 0".to_string()));
    assert_eq!(profile("kraftverk.profile", 1, "", "b").validate(), Err("id and name are required".to_string()));
}
