//! Benchmark identifiers and metric orientation.

use vstd::prelude::*;

verus! {

/// Whether higher or lower values are better for a metric.
#[derive(Debug, Clone, Copy, PartialEq, Eq, Structural)]
pub enum MetricDirection {
    HigherIsBetter,
    LowerIsBetter,
}

/// Stable benchmark identifier.
#[derive(Debug, Clone, PartialEq, Eq, Hash)]
pub struct BenchmarkId(pub String);

impl BenchmarkId {
    pub fn new(s: &str) -> (b: BenchmarkId)
        ensures
            b.0@ == s@,
    {
        BenchmarkId(String::from_str(s))
    }

    pub fn as_str(&self) -> (s: &str)
        ensures
            s@ == self.0@,
    {
        self.0.as_str()
    }
}

} // verus!
