//! Soft/hard constraints for optimization sessions.
//!
//! Temperature and power limits are compared at the edge of the program;
//! thread limits and the outcome record are decided here.

use vstd::prelude::*;

verus! {

/// Outcome of checking environmental readings against hard limits.
#[derive(Debug, Clone)]
pub struct ConstraintCheck {
    pub ok: bool,
    pub violations: Vec<String>,
    pub unchecked: Vec<String>,
}

impl ConstraintCheck {
    /// The outcome for the findings: it passes exactly when nothing was
    /// violated; limits that could not be checked do not fail it.
    pub fn from_findings(violations: Vec<String>, unchecked: Vec<String>) -> (c: ConstraintCheck)
        ensures
            c.ok == (violations@.len() == 0),
            c.violations@ == violations@,
            c.unchecked@ == unchecked@,
    {
        ConstraintCheck { ok: violations.len() == 0, violations, unchecked }
    }
}

/// Whether `n` threads are allowed under an optional maximum (no maximum
/// allows any count).
pub fn allows_at_most(limit: Option<usize>, n: usize) -> (b: bool)
    ensures
        b == (match limit {
            Some(m) => n <= m,
            None => true,
        }),
{
    match limit {
        Some(m) => n <= m,
        None => true,
    }
}

} // verus!
