//! Runtime and optimization configuration.

use vstd::prelude::*;

use crate::text::{ascii_lower, eq_ignore_ascii_case, lemma_ascii_lower_id};

verus! {

/// How aggressively Kraftverk may experiment.
#[derive(Debug, Clone, Copy, PartialEq, Eq, Structural)]
pub enum OptimizeMode {
    /// Only reversible, low-risk, process-scoped or workload-scoped parameters.
    Safe,
    /// Broader safe search space; still reversible.
    Balanced,
    /// Widest reversible search; still no irreversible firmware changes.
    Aggressive,
}

impl Default for OptimizeMode {
    fn default() -> (m: OptimizeMode)
        ensures
            m == OptimizeMode::Safe,
    {
        OptimizeMode::Safe
    }
}

/// The mode named by `s`, ignoring ASCII case.
pub open spec fn mode_named(s: Seq<char>) -> Option<OptimizeMode> {
    let l = ascii_lower(s);
    if l == ascii_lower("safe"@) {
        Some(OptimizeMode::Safe)
    } else if l == ascii_lower("balanced"@) {
        Some(OptimizeMode::Balanced)
    } else if l == ascii_lower("aggressive"@) {
        Some(OptimizeMode::Aggressive)
    } else {
        None
    }
}

impl OptimizeMode {
    pub open spec fn name(self) -> Seq<char> {
        match self {
            OptimizeMode::Safe => "safe"@,
            OptimizeMode::Balanced => "balanced"@,
            OptimizeMode::Aggressive => "aggressive"@,
        }
    }

    pub fn as_str(self) -> (s: &'static str)
        ensures
            s@ == self.name(),
    {
        match self {
            OptimizeMode::Safe => "safe",
            OptimizeMode::Balanced => "balanced",
            OptimizeMode::Aggressive => "aggressive",
        }
    }

    /// Parse a mode name, ignoring ASCII case.
    pub fn parse(s: &str) -> (m: Option<OptimizeMode>)
        ensures
            m == mode_named(s@),
    {
        if eq_ignore_ascii_case(s, "safe") {
            Some(OptimizeMode::Safe)
        } else if eq_ignore_ascii_case(s, "balanced") {
            Some(OptimizeMode::Balanced)
        } else if eq_ignore_ascii_case(s, "aggressive") {
            Some(OptimizeMode::Aggressive)
        } else {
            None
        }
    }

    /// Modes available without the privileged agent: all of them.
    pub fn supported_without_agent(self) -> (b: bool)
        ensures
            b,
    {
        match self {
            OptimizeMode::Safe | OptimizeMode::Balanced | OptimizeMode::Aggressive => true,
        }
    }

    /// Former name of [`OptimizeMode::supported_without_agent`].
    pub fn supported_in_m1(self) -> (b: bool)
        ensures
            b,
    {
        self.supported_without_agent()
    }
}

/// Law: every mode parses back from its own name.
pub proof fn lemma_mode_name_roundtrip(m: OptimizeMode)
    ensures
        mode_named(m.name()) == Some(m),
{
    reveal_strlit("safe");
    reveal_strlit("balanced");
    reveal_strlit("aggressive");
    lemma_ascii_lower_id("safe"@);
    lemma_ascii_lower_id("balanced"@);
    lemma_ascii_lower_id("aggressive"@);
}

/// Controls a single benchmark / baseline run.
#[derive(Debug, Clone)]
pub struct RunConfig {
    /// Warm-up iterations discarded before sampling.
    pub warmup: usize,
    /// Measured samples after warm-up.
    pub samples: usize,
    /// Random seed for deterministic benches that need one.
    pub seed: u64,
    /// Max wall-clock seconds for a full suite (soft budget).
    pub time_budget_secs: u64,
    /// Include storage benches (writes only under Kraftverk temp dirs).
    pub include_storage: bool,
    /// Include system/scheduler proxies.
    pub include_system: bool,
    /// Include compile-throughput characterization.
    pub include_compile: bool,
    /// Include responsiveness index.
    pub include_responsiveness: bool,
    /// Include CPU scaling characterization.
    pub include_scaling: bool,
    /// Sustained run duration in seconds (0 = off).
    pub sustained_secs: u64,
}

impl Default for RunConfig {
    fn default() -> (c: RunConfig)
        ensures
            c.warmup == 2,
            c.samples == 5,
            c.seed == 42,
            c.time_budget_secs == 300,
            c.include_storage,
            c.include_system,
            !c.include_compile,
            !c.include_responsiveness,
            !c.include_scaling,
            c.sustained_secs == 0,
    {
        RunConfig {
            warmup: 2,
            samples: 5,
            seed: 42,
            time_budget_secs: 300,
            include_storage: true,
            include_system: true,
            include_compile: false,
            include_responsiveness: false,
            include_scaling: false,
            sustained_secs: 0,
        }
    }
}

} // verus!
