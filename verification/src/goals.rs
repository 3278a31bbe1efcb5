//! Optimization goals.

use vstd::prelude::*;

use crate::config::OptimizeMode;
use crate::text::{ascii_lower, eq_ignore_ascii_case, lemma_ascii_lower_id};

verus! {

/// High-level optimization goals that bias search and scoring.
#[derive(Debug, Clone, Copy, PartialEq, Eq, Structural)]
pub enum OptimizeGoal {
    Balanced,
    Gaming,
    Compile,
    Workstation,
    Throughput,
    Latency,
    Efficiency,
    Sustained,
    Quiet,
}

impl Default for OptimizeGoal {
    fn default() -> (g: OptimizeGoal)
        ensures
            g == OptimizeGoal::Balanced,
    {
        OptimizeGoal::Balanced
    }
}

/// The goal named by `s`, ignoring ASCII case.
pub open spec fn goal_named(s: Seq<char>) -> Option<OptimizeGoal> {
    let l = ascii_lower(s);
    if l == ascii_lower("balanced"@) {
        Some(OptimizeGoal::Balanced)
    } else if l == ascii_lower("gaming"@) {
        Some(OptimizeGoal::Gaming)
    } else if l == ascii_lower("compile"@) {
        Some(OptimizeGoal::Compile)
    } else if l == ascii_lower("workstation"@) {
        Some(OptimizeGoal::Workstation)
    } else if l == ascii_lower("throughput"@) {
        Some(OptimizeGoal::Throughput)
    } else if l == ascii_lower("latency"@) {
        Some(OptimizeGoal::Latency)
    } else if l == ascii_lower("efficiency"@) {
        Some(OptimizeGoal::Efficiency)
    } else if l == ascii_lower("sustained"@) {
        Some(OptimizeGoal::Sustained)
    } else if l == ascii_lower("quiet"@) {
        Some(OptimizeGoal::Quiet)
    } else {
        None
    }
}

/// Every goal, in declaration order.
pub open spec fn all_goals() -> Seq<OptimizeGoal> {
    seq![OptimizeGoal::Balanced, OptimizeGoal::Gaming, OptimizeGoal::Compile, OptimizeGoal::Workstation, OptimizeGoal::Throughput, OptimizeGoal::Latency, OptimizeGoal::Efficiency, OptimizeGoal::Sustained, OptimizeGoal::Quiet]
}

impl OptimizeGoal {
    pub open spec fn name(self) -> Seq<char> {
        match self {
            OptimizeGoal::Balanced => "balanced"@,
            OptimizeGoal::Gaming => "gaming"@,
            OptimizeGoal::Compile => "compile"@,
            OptimizeGoal::Workstation => "workstation"@,
            OptimizeGoal::Throughput => "throughput"@,
            OptimizeGoal::Latency => "latency"@,
            OptimizeGoal::Efficiency => "efficiency"@,
            OptimizeGoal::Sustained => "sustained"@,
            OptimizeGoal::Quiet => "quiet"@,
        }
    }

    pub open spec fn description_text(self) -> Seq<char> {
        match self {
            OptimizeGoal::Balanced => "General-purpose mix of throughput and latency"@,
            OptimizeGoal::Gaming => "Favor responsiveness and frame-time proxies (GPU still optional)"@,
            OptimizeGoal::Compile => "Favor multi-core compile/throughput benches"@,
            OptimizeGoal::Workstation => "Mixed productivity workloads"@,
            OptimizeGoal::Throughput => "Maximize aggregate work rate"@,
            OptimizeGoal::Latency => "Minimize tail latency / responsiveness index"@,
            OptimizeGoal::Efficiency => "Performance per unit resource (workers/power proxies)"@,
            OptimizeGoal::Sustained => "Hold performance under longer sustained load"@,
            OptimizeGoal::Quiet => "Prefer lower intensity / quieter thermal proxies when available"@,
        }
    }

    /// The mode a goal suggests; Safe is always available, Balanced and
    /// Aggressive remain gated by platform capabilities.
    pub open spec fn mode_for(self) -> OptimizeMode {
        match self {
            OptimizeGoal::Balanced => OptimizeMode::Safe,
            OptimizeGoal::Gaming => OptimizeMode::Aggressive,
            OptimizeGoal::Compile => OptimizeMode::Balanced,
            OptimizeGoal::Workstation => OptimizeMode::Balanced,
            OptimizeGoal::Throughput => OptimizeMode::Aggressive,
            OptimizeGoal::Latency => OptimizeMode::Safe,
            OptimizeGoal::Efficiency => OptimizeMode::Safe,
            OptimizeGoal::Sustained => OptimizeMode::Balanced,
            OptimizeGoal::Quiet => OptimizeMode::Safe,
        }
    }

    pub fn as_str(self) -> (s: &'static str)
        ensures
            s@ == self.name(),
    {
        match self {
            OptimizeGoal::Balanced => "balanced",
            OptimizeGoal::Gaming => "gaming",
            OptimizeGoal::Compile => "compile",
            OptimizeGoal::Workstation => "workstation",
            OptimizeGoal::Throughput => "throughput",
            OptimizeGoal::Latency => "latency",
            OptimizeGoal::Efficiency => "efficiency",
            OptimizeGoal::Sustained => "sustained",
            OptimizeGoal::Quiet => "quiet",
        }
    }

    /// Parse a goal name, ignoring ASCII case.
    pub fn parse(s: &str) -> (g: Option<OptimizeGoal>)
        ensures
            g == goal_named(s@),
    {
        if eq_ignore_ascii_case(s, "balanced") {
            Some(OptimizeGoal::Balanced)
        } else if eq_ignore_ascii_case(s, "gaming") {
            Some(OptimizeGoal::Gaming)
        } else if eq_ignore_ascii_case(s, "compile") {
            Some(OptimizeGoal::Compile)
        } else if eq_ignore_ascii_case(s, "workstation") {
            Some(OptimizeGoal::Workstation)
        } else if eq_ignore_ascii_case(s, "throughput") {
            Some(OptimizeGoal::Throughput)
        } else if eq_ignore_ascii_case(s, "latency") {
            Some(OptimizeGoal::Latency)
        } else if eq_ignore_ascii_case(s, "efficiency") {
            Some(OptimizeGoal::Efficiency)
        } else if eq_ignore_ascii_case(s, "sustained") {
            Some(OptimizeGoal::Sustained)
        } else if eq_ignore_ascii_case(s, "quiet") {
            Some(OptimizeGoal::Quiet)
        } else {
            None
        }
    }

    /// Every goal, in declaration order.
    pub fn all() -> (v: Vec<OptimizeGoal>)
        ensures
            v@ == all_goals(),
    {
        let v: Vec<OptimizeGoal> = vec![OptimizeGoal::Balanced, OptimizeGoal::Gaming, OptimizeGoal::Compile, OptimizeGoal::Workstation, OptimizeGoal::Throughput, OptimizeGoal::Latency, OptimizeGoal::Efficiency, OptimizeGoal::Sustained, OptimizeGoal::Quiet];
        v
    }

    /// Suggested optimize mode for this goal.
    pub fn suggested_mode(self) -> (m: OptimizeMode)
        ensures
            m == self.mode_for(),
    {
        match self {
            OptimizeGoal::Balanced => OptimizeMode::Safe,
            OptimizeGoal::Gaming => OptimizeMode::Aggressive,
            OptimizeGoal::Compile => OptimizeMode::Balanced,
            OptimizeGoal::Workstation => OptimizeMode::Balanced,
            OptimizeGoal::Throughput => OptimizeMode::Aggressive,
            OptimizeGoal::Latency => OptimizeMode::Safe,
            OptimizeGoal::Efficiency => OptimizeMode::Safe,
            OptimizeGoal::Sustained => OptimizeMode::Balanced,
            OptimizeGoal::Quiet => OptimizeMode::Safe,
        }
    }

    pub fn description(self) -> (s: &'static str)
        ensures
            s@ == self.description_text(),
    {
        match self {
            OptimizeGoal::Balanced => "General-purpose mix of throughput and latency",
            OptimizeGoal::Gaming => "Favor responsiveness and frame-time proxies (GPU still optional)",
            OptimizeGoal::Compile => "Favor multi-core compile/throughput benches",
            OptimizeGoal::Workstation => "Mixed productivity workloads",
            OptimizeGoal::Throughput => "Maximize aggregate work rate",
            OptimizeGoal::Latency => "Minimize tail latency / responsiveness index",
            OptimizeGoal::Efficiency => "Performance per unit resource (workers/power proxies)",
            OptimizeGoal::Sustained => "Hold performance under longer sustained load",
            OptimizeGoal::Quiet => "Prefer lower intensity / quieter thermal proxies when available",
        }
    }
}

/// Law: the mode a goal suggests. Goals that load every core for long
/// stretches (compile, workstation, sustained) suggest `balanced`; goals that
/// chase the highest rate (gaming, throughput) suggest `aggressive`; every
/// other goal (balanced, latency, efficiency, quiet) stays `safe`.
pub proof fn lemma_suggested_modes(g: OptimizeGoal)
    ensures
        (g.mode_for() == OptimizeMode::Balanced) <==> (g == OptimizeGoal::Compile || g == OptimizeGoal::Workstation
            || g == OptimizeGoal::Sustained),
        (g.mode_for() == OptimizeMode::Aggressive) <==> (g == OptimizeGoal::Gaming || g == OptimizeGoal::Throughput),
        (g.mode_for() == OptimizeMode::Safe) <==> (g == OptimizeGoal::Balanced || g == OptimizeGoal::Latency
            || g == OptimizeGoal::Efficiency || g == OptimizeGoal::Quiet),
{
}

/// Law: every goal parses back from its own name, and the list of all goals
/// holds each goal exactly once.
pub proof fn lemma_goal_names(g: OptimizeGoal)
    ensures
        goal_named(g.name()) == Some(g),
        all_goals().contains(g),
        all_goals().no_duplicates(),
{
    reveal_strlit("balanced");
    lemma_ascii_lower_id("balanced"@);
    reveal_strlit("gaming");
    lemma_ascii_lower_id("gaming"@);
    reveal_strlit("compile");
    lemma_ascii_lower_id("compile"@);
    reveal_strlit("workstation");
    lemma_ascii_lower_id("workstation"@);
    reveal_strlit("throughput");
    lemma_ascii_lower_id("throughput"@);
    reveal_strlit("latency");
    lemma_ascii_lower_id("latency"@);
    reveal_strlit("efficiency");
    lemma_ascii_lower_id("efficiency"@);
    reveal_strlit("sustained");
    lemma_ascii_lower_id("sustained"@);
    reveal_strlit("quiet");
    lemma_ascii_lower_id("quiet"@);
    let a = all_goals();
    assert forall|i: int, j: int| 0 <= i < j < a.len() implies a[i] != a[j] by {}
    match g {
        OptimizeGoal::Balanced => {
            assert(a[0] == g);
        },
        OptimizeGoal::Gaming => {
            assert("gaming"@.len() != "balanced"@.len());
            assert(a[1] == g);
        },
        OptimizeGoal::Compile => {
            assert("compile"@.len() != "balanced"@.len());
            assert("compile"@.len() != "gaming"@.len());
            assert(a[2] == g);
        },
        OptimizeGoal::Workstation => {
            assert("workstation"@.len() != "balanced"@.len());
            assert("workstation"@.len() != "gaming"@.len());
            assert("workstation"@.len() != "compile"@.len());
            assert(a[3] == g);
        },
        OptimizeGoal::Throughput => {
            assert("throughput"@.len() != "balanced"@.len());
            assert("throughput"@.len() != "gaming"@.len());
            assert("throughput"@.len() != "compile"@.len());
            assert("throughput"@.len() != "workstation"@.len());
            assert(a[4] == g);
        },
        OptimizeGoal::Latency => {
            assert("latency"@.len() != "balanced"@.len());
            assert("latency"@.len() != "gaming"@.len());
            assert("latency"@[0] != "compile"@[0]);
            assert("latency"@.len() != "workstation"@.len());
            assert("latency"@.len() != "throughput"@.len());
            assert(a[5] == g);
        },
        OptimizeGoal::Efficiency => {
            assert("efficiency"@.len() != "balanced"@.len());
            assert("efficiency"@.len() != "gaming"@.len());
            assert("efficiency"@.len() != "compile"@.len());
            assert("efficiency"@.len() != "workstation"@.len());
            assert("efficiency"@[0] != "throughput"@[0]);
            assert("efficiency"@.len() != "latency"@.len());
            assert(a[6] == g);
        },
        OptimizeGoal::Sustained => {
            assert("sustained"@.len() != "balanced"@.len());
            assert("sustained"@.len() != "gaming"@.len());
            assert("sustained"@.len() != "compile"@.len());
            assert("sustained"@.len() != "workstation"@.len());
            assert("sustained"@.len() != "throughput"@.len());
            assert("sustained"@.len() != "latency"@.len());
            assert("sustained"@.len() != "efficiency"@.len());
            assert(a[7] == g);
        },
        OptimizeGoal::Quiet => {
            assert("quiet"@.len() != "balanced"@.len());
            assert("quiet"@.len() != "gaming"@.len());
            assert("quiet"@.len() != "compile"@.len());
            assert("quiet"@.len() != "workstation"@.len());
            assert("quiet"@.len() != "throughput"@.len());
            assert("quiet"@.len() != "latency"@.len());
            assert("quiet"@.len() != "efficiency"@.len());
            assert("quiet"@.len() != "sustained"@.len());
            assert(a[8] == g);
        },
    }
}

} // verus!
