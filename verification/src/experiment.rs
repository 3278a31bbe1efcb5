//! Experiment record vocabulary.

use vstd::prelude::*;

use crate::text::str_eq;

verus! {

/// Role of an experiment in a session.
#[derive(Debug, Clone, Copy, PartialEq, Eq, Structural)]
pub enum ExperimentKind {
    Baseline,
    Candidate,
    Validation,
}

/// Lifecycle state of an experiment.
#[derive(Debug, Clone, Copy, PartialEq, Eq, Structural)]
pub enum ExperimentStatus {
    Pending,
    Running,
    Applied,
    Measuring,
    Completed,
    RolledBack,
    Failed,
    Interrupted,
}

/// Keep-or-revert decision recorded for an experiment.
#[derive(Debug, Clone, Copy, PartialEq, Eq, Structural)]
pub enum Decision {
    Accept,
    Reject,
    Baseline,
    Pending,
}

/// Stability verdict of a candidate's samples.
#[derive(Debug, Clone, Copy, PartialEq, Eq, Structural)]
pub enum StabilityVerdict {
    Pass,
    Fail,
    Unknown,
}

impl StabilityVerdict {
    pub open spec fn name(self) -> Seq<char> {
        match self {
            StabilityVerdict::Pass => "PASS"@,
            StabilityVerdict::Fail => "FAIL"@,
            StabilityVerdict::Unknown => "UNKNOWN"@,
        }
    }

    pub fn as_str(self) -> (s: &'static str)
        ensures
            s@ == self.name(),
    {
        match self {
            StabilityVerdict::Pass => "PASS",
            StabilityVerdict::Fail => "FAIL",
            StabilityVerdict::Unknown => "UNKNOWN",
        }
    }

    /// Decode the stored text form: `PASS`, `FAIL`, anything else is `UNKNOWN`.
    pub fn from_stored(s: &str) -> (v: StabilityVerdict)
        ensures
            v == (if s@ == "PASS"@ {
                StabilityVerdict::Pass
            } else if s@ == "FAIL"@ {
                StabilityVerdict::Fail
            } else {
                StabilityVerdict::Unknown
            }),
    {
        if str_eq(s, "PASS") {
            StabilityVerdict::Pass
        } else if str_eq(s, "FAIL") {
            StabilityVerdict::Fail
        } else {
            StabilityVerdict::Unknown
        }
    }
}

/// Law: decoding the stored form of a verdict gives the verdict back.
pub proof fn lemma_stability_roundtrip(v: StabilityVerdict)
    ensures
        (if v.name() == "PASS"@ {
            StabilityVerdict::Pass
        } else if v.name() == "FAIL"@ {
            StabilityVerdict::Fail
        } else {
            StabilityVerdict::Unknown
        }) == v,
{
    reveal_strlit("PASS");
    reveal_strlit("FAIL");
    reveal_strlit("UNKNOWN");
    assert("PASS"@[0] != "FAIL"@[0]);
}

/// Hardware policy recorded on experiments that predate the field.
pub fn default_hardware_policy() -> (s: String)
    ensures
        s@ == "amd-only-v1"@,
{
    String::from_str("amd-only-v1")
}

} // verus!
