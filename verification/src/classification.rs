//! Comparison classification labels.

use vstd::prelude::*;

verus! {

/// Outcome class of comparing candidate samples against a baseline.
#[derive(Debug, Clone, Copy, PartialEq, Eq, Structural)]
pub enum ComparisonClass {
    ConfirmedImprovement,
    LikelyImprovement,
    NoSignificantChange,
    LikelyRegression,
    ConfirmedRegression,
    UnstableResult,
}

impl ComparisonClass {
    pub open spec fn name(self) -> Seq<char> {
        match self {
            ComparisonClass::ConfirmedImprovement => "CONFIRMED_IMPROVEMENT"@,
            ComparisonClass::LikelyImprovement => "LIKELY_IMPROVEMENT"@,
            ComparisonClass::NoSignificantChange => "NO_SIGNIFICANT_CHANGE"@,
            ComparisonClass::LikelyRegression => "LIKELY_REGRESSION"@,
            ComparisonClass::ConfirmedRegression => "CONFIRMED_REGRESSION"@,
            ComparisonClass::UnstableResult => "UNSTABLE_RESULT"@,
        }
    }

    pub open spec fn improvement(self) -> bool {
        self is ConfirmedImprovement || self is LikelyImprovement
    }

    pub open spec fn regression(self) -> bool {
        self is ConfirmedRegression || self is LikelyRegression
    }

    pub fn as_str(self) -> (s: &'static str)
        ensures
            s@ == self.name(),
    {
        match self {
            ComparisonClass::ConfirmedImprovement => "CONFIRMED_IMPROVEMENT",
            ComparisonClass::LikelyImprovement => "LIKELY_IMPROVEMENT",
            ComparisonClass::NoSignificantChange => "NO_SIGNIFICANT_CHANGE",
            ComparisonClass::LikelyRegression => "LIKELY_REGRESSION",
            ComparisonClass::ConfirmedRegression => "CONFIRMED_REGRESSION",
            ComparisonClass::UnstableResult => "UNSTABLE_RESULT",
        }
    }

    pub fn is_improvement(self) -> (b: bool)
        ensures
            b == self.improvement(),
    {
        match self {
            ComparisonClass::ConfirmedImprovement | ComparisonClass::LikelyImprovement => true,
            _ => false,
        }
    }

    pub fn is_regression(self) -> (b: bool)
        ensures
            b == self.regression(),
    {
        match self {
            ComparisonClass::ConfirmedRegression | ComparisonClass::LikelyRegression => true,
            _ => false,
        }
    }

    /// Decode the stored text form (`CONFIRMED_IMPROVEMENT`, ...).
    pub fn from_stored(s: &str) -> (c: Option<ComparisonClass>)
        ensures
            c matches Some(k) ==> k.name() == s@,
            c is None ==> forall|k: ComparisonClass| k.name() != s@,
    {
        proof {
            reveal_strlit("CONFIRMED_IMPROVEMENT");
            reveal_strlit("LIKELY_IMPROVEMENT");
            reveal_strlit("NO_SIGNIFICANT_CHANGE");
            reveal_strlit("LIKELY_REGRESSION");
            reveal_strlit("CONFIRMED_REGRESSION");
            reveal_strlit("UNSTABLE_RESULT");
        }
        if crate::text::str_eq(s, "CONFIRMED_IMPROVEMENT") {
            Some(ComparisonClass::ConfirmedImprovement)
        } else if crate::text::str_eq(s, "LIKELY_IMPROVEMENT") {
            Some(ComparisonClass::LikelyImprovement)
        } else if crate::text::str_eq(s, "NO_SIGNIFICANT_CHANGE") {
            Some(ComparisonClass::NoSignificantChange)
        } else if crate::text::str_eq(s, "LIKELY_REGRESSION") {
            Some(ComparisonClass::LikelyRegression)
        } else if crate::text::str_eq(s, "CONFIRMED_REGRESSION") {
            Some(ComparisonClass::ConfirmedRegression)
        } else if crate::text::str_eq(s, "UNSTABLE_RESULT") {
            Some(ComparisonClass::UnstableResult)
        } else {
            None
        }
    }
}

/// Law: no class is both an improvement and a regression.
pub proof fn lemma_improvement_excludes_regression(c: ComparisonClass)
    ensures
        !(c.improvement() && c.regression()),
{
}

} // verus!
