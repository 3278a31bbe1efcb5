//! Optimization profiles and `.kraft` profile packages.

use vstd::prelude::*;

use crate::candidate::Candidate;
use crate::config::OptimizeMode;
use crate::goals::OptimizeGoal;
use crate::text::{decimal, u64_to_decimal};

verus! {

/// A named optimization profile.
#[derive(Debug, Clone)]
pub struct ProfileInfo {
    pub id: String,
    pub name: String,
    pub mode: OptimizeMode,
    pub goal: OptimizeGoal,
    pub available: bool,
    pub notes: String,
}

/// The built-in profiles: (id, name, mode, goal, notes); all are available.
pub open spec fn profile_table() -> Seq<(Seq<char>, Seq<char>, OptimizeMode, OptimizeGoal, Seq<char>)> {
    seq![
        ("safe-default"@, "Safe default"@, OptimizeMode::Safe, OptimizeGoal::Balanced, "Process-scoped worker/rayon counts, optional priority & affinity."@),
        ("balanced"@, "Balanced"@, OptimizeMode::Balanced, OptimizeGoal::Balanced, "Broader reversible search within safe knobs."@),
        ("gaming"@, "Gaming"@, OptimizeMode::Aggressive, OptimizeGoal::Gaming, "Biases responsiveness; GPU backends remain unsupported."@),
        ("compile"@, "Compile"@, OptimizeMode::Balanced, OptimizeGoal::Compile, "Biases multi-core / compile-proxy benches."@),
        ("workstation"@, "Workstation"@, OptimizeMode::Balanced, OptimizeGoal::Workstation, "Mixed productivity bias."@),
        ("throughput"@, "Throughput"@, OptimizeMode::Aggressive, OptimizeGoal::Throughput, "Maximize aggregate work rate within reversible knobs."@),
        ("latency"@, "Latency"@, OptimizeMode::Safe, OptimizeGoal::Latency, "Favor responsiveness index."@),
        ("efficiency"@, "Efficiency"@, OptimizeMode::Safe, OptimizeGoal::Efficiency, "Prefer fewer workers when score-per-thread is better."@),
        ("sustained"@, "Sustained"@, OptimizeMode::Balanced, OptimizeGoal::Sustained, "Longer validation; optional sustained benches."@),
        ("quiet"@, "Quiet"@, OptimizeMode::Safe, OptimizeGoal::Quiet, "Prefer lower intensity; thermal limits when sensors exist."@),
        ("aggressive"@, "Aggressive"@, OptimizeMode::Aggressive, OptimizeGoal::Throughput, "Widest reversible search; still no firmware/power-plan changes without agent."@),
    ]
}

/// `p` is the built-in profile at `i`.
pub open spec fn is_table_profile(p: ProfileInfo, i: int) -> bool {
    let e = profile_table()[i];
    &&& p.id@ == e.0
    &&& p.name@ == e.1
    &&& p.mode == e.2
    &&& p.goal == e.3
    &&& p.available
    &&& p.notes@ == e.4
}

/// Position of the first built-in profile for a goal.
pub open spec fn first_profile_for(goal: OptimizeGoal) -> int {
    choose|i: int|
        0 <= i < profile_table().len() && profile_table()[i].3 == goal && forall|j: int|
            0 <= j < i ==> profile_table()[j].3 != goal
}

/// The built-in profiles, in recommendation order.
pub fn list_profiles() -> (v: Vec<ProfileInfo>)
    ensures
        v@.len() == profile_table().len(),
        forall|i: int| 0 <= i < v@.len() ==> is_table_profile(#[trigger] v@[i], i),
{
    let mut v: Vec<ProfileInfo> = Vec::new();
    v.push(ProfileInfo {
        id: String::from_str("safe-default"),
        name: String::from_str("Safe default"),
        mode: OptimizeMode::Safe,
        goal: OptimizeGoal::Balanced,
        available: true,
        notes: String::from_str("Process-scoped worker/rayon counts, optional priority & affinity."),
    });
    v.push(ProfileInfo {
        id: String::from_str("balanced"),
        name: String::from_str("Balanced"),
        mode: OptimizeMode::Balanced,
        goal: OptimizeGoal::Balanced,
        available: true,
        notes: String::from_str("Broader reversible search within safe knobs."),
    });
    v.push(ProfileInfo {
        id: String::from_str("gaming"),
        name: String::from_str("Gaming"),
        mode: OptimizeMode::Aggressive,
        goal: OptimizeGoal::Gaming,
        available: true,
        notes: String::from_str("Biases responsiveness; GPU backends remain unsupported."),
    });
    v.push(ProfileInfo {
        id: String::from_str("compile"),
        name: String::from_str("Compile"),
        mode: OptimizeMode::Balanced,
        goal: OptimizeGoal::Compile,
        available: true,
        notes: String::from_str("Biases multi-core / compile-proxy benches."),
    });
    v.push(ProfileInfo {
        id: String::from_str("workstation"),
        name: String::from_str("Workstation"),
        mode: OptimizeMode::Balanced,
        goal: OptimizeGoal::Workstation,
        available: true,
        notes: String::from_str("Mixed productivity bias."),
    });
    v.push(ProfileInfo {
        id: String::from_str("throughput"),
        name: String::from_str("Throughput"),
        mode: OptimizeMode::Aggressive,
        goal: OptimizeGoal::Throughput,
        available: true,
        notes: String::from_str("Maximize aggregate work rate within reversible knobs."),
    });
    v.push(ProfileInfo {
        id: String::from_str("latency"),
        name: String::from_str("Latency"),
        mode: OptimizeMode::Safe,
        goal: OptimizeGoal::Latency,
        available: true,
        notes: String::from_str("Favor responsiveness index."),
    });
    v.push(ProfileInfo {
        id: String::from_str("efficiency"),
        name: String::from_str("Efficiency"),
        mode: OptimizeMode::Safe,
        goal: OptimizeGoal::Efficiency,
        available: true,
        notes: String::from_str("Prefer fewer workers when score-per-thread is better."),
    });
    v.push(ProfileInfo {
        id: String::from_str("sustained"),
        name: String::from_str("Sustained"),
        mode: OptimizeMode::Balanced,
        goal: OptimizeGoal::Sustained,
        available: true,
        notes: String::from_str("Longer validation; optional sustained benches."),
    });
    v.push(ProfileInfo {
        id: String::from_str("quiet"),
        name: String::from_str("Quiet"),
        mode: OptimizeMode::Safe,
        goal: OptimizeGoal::Quiet,
        available: true,
        notes: String::from_str("Prefer lower intensity; thermal limits when sensors exist."),
    });
    v.push(ProfileInfo {
        id: String::from_str("aggressive"),
        name: String::from_str("Aggressive"),
        mode: OptimizeMode::Aggressive,
        goal: OptimizeGoal::Throughput,
        available: true,
        notes: String::from_str("Widest reversible search; still no firmware/power-plan changes without agent."),
    });
    v
}

fn clone_profile(p: &ProfileInfo) -> (r: ProfileInfo)
    ensures
        r.id@ == p.id@,
        r.name@ == p.name@,
        r.mode == p.mode,
        r.goal == p.goal,
        r.available == p.available,
        r.notes@ == p.notes@,
{
    ProfileInfo {
        id: p.id.clone(),
        name: p.name.clone(),
        mode: p.mode,
        goal: p.goal,
        available: p.available,
        notes: p.notes.clone(),
    }
}

/// Law: every goal has a built-in profile, so the search for one never falls back.
pub proof fn lemma_every_goal_has_profile(g: OptimizeGoal)
    ensures
        exists|i: int| 0 <= i < profile_table().len() && profile_table()[i].3 == g,
{
    let t = profile_table();
    match g {
        OptimizeGoal::Balanced => assert(t[0].3 == g),
        OptimizeGoal::Gaming => assert(t[2].3 == g),
        OptimizeGoal::Compile => assert(t[3].3 == g),
        OptimizeGoal::Workstation => assert(t[4].3 == g),
        OptimizeGoal::Throughput => assert(t[5].3 == g),
        OptimizeGoal::Latency => assert(t[6].3 == g),
        OptimizeGoal::Efficiency => assert(t[7].3 == g),
        OptimizeGoal::Sustained => assert(t[8].3 == g),
        OptimizeGoal::Quiet => assert(t[9].3 == g),
    }
}

/// The first available profile for a goal (every goal has one).
pub fn recommend_profile(goal: OptimizeGoal) -> (p: ProfileInfo)
    ensures
        is_table_profile(p, first_profile_for(goal)),
        p.goal == goal,
{
    let all = list_profiles();
    let n = all.len();
    for i in 0..n
        invariant
            n == all@.len(),
            n == profile_table().len(),
            forall|k: int| 0 <= k < all@.len() ==> is_table_profile(#[trigger] all@[k], k),
            forall|j: int| 0 <= j < i ==> profile_table()[j].3 != goal,
    {
        if all[i].goal == goal && all[i].available {
            assert(is_table_profile(all@[i as int], i as int));
            assert(forall|j: int| 0 <= j < i ==> profile_table()[j].3 != goal);
            assert(first_profile_for(goal) == i) by {
                let w = i as int;
                assert(0 <= w < profile_table().len() && profile_table()[w].3 == goal && forall|j: int|
                    0 <= j < w ==> profile_table()[j].3 != goal);
                let c = first_profile_for(goal);
                if c < w {
                    assert(profile_table()[c].3 != goal);
                } else if c > w {
                    assert(profile_table()[w].3 != goal);
                }
            }
            return clone_profile(&all[i]);
        }
        assert(is_table_profile(all@[i as int], i as int));
    }
    proof {
        lemma_every_goal_has_profile(goal);
        let i = choose|i: int| 0 <= i < profile_table().len() && profile_table()[i].3 == goal;
        assert(profile_table()[i].3 != goal);
    }
    clone_profile(&all[0])
}

/// Portable profile document (`.kraft` JSON) carrying a candidate.
#[derive(Debug, Clone)]
pub struct KraftProfile {
    pub format: String,
    pub version: u32,
    pub id: String,
    pub name: String,
    pub goal: OptimizeGoal,
    pub mode: OptimizeMode,
    pub candidate: Candidate,
    pub machine_fingerprint: Option<String>,
    pub created_at: String,
    pub notes: String,
}

/// The validation verdict for a profile header.
pub open spec fn profile_check(format: Seq<char>, version: u32, id: Seq<char>, name: Seq<char>) -> Result<
    (),
    Seq<char>,
> {
    if format != "kraftverk.profile"@ {
        Err("unknown format '"@ + format + "'"@)
    } else if version == 0 || version > 1 {
        Err("unsupported profile version "@ + decimal(version as nat))
    } else if id.len() == 0 || name.len() == 0 {
        Err("id and name are required"@)
    } else {
        Ok(())
    }
}

impl KraftProfile {
    /// Check the format tag, the version (only 1) and that id and name are set.
    pub fn validate(&self) -> (r: Result<(), String>)
        ensures
            match profile_check(self.format@, self.version, self.id@, self.name@) {
                Ok(()) => r is Ok,
                Err(m) => r matches Err(e) && e@ == m,
            },
    {
        if !crate::text::str_eq(self.format.as_str(), "kraftverk.profile") {
            let mut m = String::from_str("unknown format '");
            m.append(self.format.as_str());
            m.append("'");
            return Err(m);
        }
        if self.version == 0 || self.version > 1 {
            let mut m = String::from_str("unsupported profile version ");
            let d = u64_to_decimal(self.version as u64);
            m.append(d.as_str());
            return Err(m);
        }
        if self.id.as_str().is_empty() || self.name.as_str().is_empty() {
            return Err(String::from_str("id and name are required"));
        }
        Ok(())
    }
}

} // verus!
