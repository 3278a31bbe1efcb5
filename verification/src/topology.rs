//! Machine topology description.

use vstd::prelude::*;

verus! {

/// CPU counts of the machine.
#[derive(Debug, Clone)]
pub struct CpuTopology {
    pub physical_cores: usize,
    pub logical_cpus: usize,
    pub packages: usize,
}

impl CpuTopology {
    /// The topology assumed from the available parallelism (1 when it is
    /// unknown): one package, as many cores as logical CPUs.
    pub fn from_parallelism(available: Option<usize>) -> (t: CpuTopology)
        ensures
            t.logical_cpus == (match available {
                Some(n) => n,
                None => 1,
            }),
            t.physical_cores == t.logical_cpus,
            t.packages == 1,
    {
        let logical = match available {
            Some(n) => n,
            None => 1,
        };
        CpuTopology { physical_cores: logical, logical_cpus: logical, packages: 1 }
    }
}

/// CPU topology and total memory.
#[derive(Debug, Clone)]
pub struct Topology {
    pub cpu: CpuTopology,
    pub total_memory_bytes: u64,
}

} // verus!
