//! Exit codes for hardware eligibility failures.

use vstd::prelude::*;

use crate::eligibility::types::{HardwareRejection, Rejection};

verus! {

/// Documented process exit codes for a blocked machine.
#[derive(Debug, Clone, Copy, PartialEq, Eq, Structural)]
pub enum ExitCode {
    UnsupportedArchitecture,
    IntelCpu,
    NvidiaGpu,
    IntelGpu,
    UnknownCpuVendor,
    UnsupportedCombination,
}

impl ExitCode {
    /// The numeric code: 20 architecture, 21 Intel CPU, 22 NVIDIA GPU, 23 Intel GPU,
    /// 24 unknown CPU vendor, 25 any other unsupported combination.
    pub open spec fn code(self) -> i32 {
        match self {
            ExitCode::UnsupportedArchitecture => 20,
            ExitCode::IntelCpu => 21,
            ExitCode::NvidiaGpu => 22,
            ExitCode::IntelGpu => 23,
            ExitCode::UnknownCpuVendor => 24,
            ExitCode::UnsupportedCombination => 25,
        }
    }

    pub fn as_i32(self) -> (c: i32)
        ensures
            c == self.code(),
    {
        match self {
            ExitCode::UnsupportedArchitecture => 20,
            ExitCode::IntelCpu => 21,
            ExitCode::NvidiaGpu => 22,
            ExitCode::IntelGpu => 23,
            ExitCode::UnknownCpuVendor => 24,
            ExitCode::UnsupportedCombination => 25,
        }
    }
}

/// The exit code documented for a rejection reason.
pub open spec fn exit_code_of(r: Rejection) -> ExitCode {
    match r {
        Rejection::UnsupportedArchitecture { .. } => ExitCode::UnsupportedArchitecture,
        Rejection::IntelCpuDetected => ExitCode::IntelCpu,
        Rejection::NvidiaGpuDetected { .. } => ExitCode::NvidiaGpu,
        Rejection::IntelGpuDetected { .. } => ExitCode::IntelGpu,
        Rejection::UnknownCpuVendor { .. } => ExitCode::UnknownCpuVendor,
        Rejection::UnsupportedGpuVendor { .. } => ExitCode::UnsupportedCombination,
        Rejection::MixedGpuVendors { .. } => ExitCode::UnsupportedCombination,
        Rejection::UnsupportedHardwareCombination { .. } => ExitCode::UnsupportedCombination,
    }
}

/// Map the primary rejection reason to a documented process exit code.
pub fn exit_code_for(reason: &HardwareRejection) -> (c: ExitCode)
    ensures
        c == exit_code_of(reason@),
{
    match reason {
        HardwareRejection::UnsupportedArchitecture { .. } => ExitCode::UnsupportedArchitecture,
        HardwareRejection::IntelCpuDetected => ExitCode::IntelCpu,
        HardwareRejection::NvidiaGpuDetected { .. } => ExitCode::NvidiaGpu,
        HardwareRejection::IntelGpuDetected { .. } => ExitCode::IntelGpu,
        HardwareRejection::UnknownCpuVendor { .. } => ExitCode::UnknownCpuVendor,
        HardwareRejection::UnsupportedGpuVendor { .. }
        | HardwareRejection::MixedGpuVendors { .. }
        | HardwareRejection::UnsupportedHardwareCombination { .. } => {
            ExitCode::UnsupportedCombination
        },
    }
}

} // verus!
