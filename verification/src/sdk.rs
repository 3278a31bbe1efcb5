//! Embedding facade: opening a Kraftverk context on supported hardware.
//!
//! Opening fails on unsupported hardware (amd-only-v1).

use vstd::prelude::*;

use crate::eligibility::detect::{detected, DetectedGpu};
use crate::eligibility::evaluate::{evaluate_eligibility, evaluated, HardwareFacts};
use crate::eligibility::exit_codes::{exit_code_for, exit_code_of};
use crate::eligibility::hotplug::{hotplug_decision, summary_of, Hotplug, SessionGuard};
use crate::eligibility::types::{
    same_eligibility, Architecture, CpuVendor, HardwareEligibility, HARDWARE_POLICY,
};
use crate::error::Error;

verus! {

/// Structured unsupported-hardware failure for embedders.
#[derive(Debug, Clone)]
pub struct UnsupportedHardware {
    pub message: String,
    pub eligibility: Box<HardwareEligibility>,
    pub exit_code: i32,
}

/// The exit code of an eligibility result: that of its first rejection, or 25.
pub open spec fn eligibility_exit_code(e: HardwareEligibility) -> i32 {
    if e.rejection_reasons@.len() > 0 {
        exit_code_of(e.rejection_reasons@[0]@).code()
    } else {
        25
    }
}

impl UnsupportedHardware {
    /// The failure for a blocked eligibility result: its summary, the result
    /// itself, and the exit code of its primary rejection (25 without one).
    pub fn from_eligibility(eligibility: HardwareEligibility) -> (u: UnsupportedHardware)
        ensures
            u.message@ == summary_of(eligibility),
            *u.eligibility == eligibility,
            u.exit_code == eligibility_exit_code(eligibility),
    {
        let exit_code = match eligibility.primary_rejection() {
            Some(r) => exit_code_for(r).as_i32(),
            None => 25,
        };
        UnsupportedHardware {
            message: eligibility.summary(),
            eligibility: Box::new(eligibility),
            exit_code,
        }
    }
}

impl From<UnsupportedHardware> for Error {
    fn from(u: UnsupportedHardware) -> (e: Error) {
        Error::UnsupportedHardware(u.message)
    }
}

impl vstd::std_specs::convert::FromSpecImpl<UnsupportedHardware> for Error {
    open spec fn obeys_from_spec() -> bool {
        true
    }

    open spec fn from_spec(u: UnsupportedHardware) -> Error {
        Error::UnsupportedHardware(u.message)
    }
}

/// Primary SDK handle.
pub struct Kraftverk {
    pub eligibility: HardwareEligibility,
    pub fingerprint: String,
    /// The session guard holding the eligibility reading at start.
    pub guard: SessionGuard,
}

impl Kraftverk {
    /// The eligibility reading the session started from.
    pub open spec fn initial(self) -> HardwareEligibility {
        self.guard.initial
    }

    /// Open a context on the eligibility reading at start and the machine's
    /// fingerprint; a blocked reading is refused with its summary.
    pub fn open_default(initial: HardwareEligibility, fingerprint: String) -> (r: Result<
        Kraftverk,
        Error,
    >)
        ensures
            initial.supported ==> (r matches Ok(k) && same_eligibility(k.eligibility, initial)
                && k.eligibility.supported && k.fingerprint@ == fingerprint@ && k.initial() == initial),
            !initial.supported ==> (r matches Err(Error::UnsupportedHardware(m)) && m@
                == summary_of(initial)),
    {
        let guard = match SessionGuard::start(initial) {
            Ok(g) => g,
            Err(e) => {
                return Err(e);
            },
        };
        let eligibility = guard.initial.duplicate();
        Ok(Kraftverk { eligibility, fingerprint, guard })
    }

    /// Hardware policy identifier (`amd-only-v1`).
    pub fn hardware_policy(&self) -> (s: &'static str)
        ensures
            s@ == HARDWARE_POLICY@,
    {
        HARDWARE_POLICY
    }

    /// Re-check a fresh reading against the session's start before a
    /// sensitive operation.
    pub fn revalidate(&self, current: HardwareEligibility) -> (r: Result<HardwareEligibility, Error>)
        ensures
            hotplug_decision(self.initial(), current) is Continue ==> (r matches Ok(e) && e
                == current),
            hotplug_decision(self.initial(), current) matches Hotplug::AbortBlock { reason } ==> (
            r matches Err(Error::UnsupportedHardware(m)) && m@ == reason),
    {
        self.guard.assert_still_supported(current)
    }
}

/// Evaluate eligibility from the detectors' readings without opening a
/// session.
pub fn check_hardware(
    architecture: Architecture,
    cpu_vendor_raw: String,
    gpus: &Vec<DetectedGpu>,
) -> (e: HardwareEligibility)
    ensures
        exists|f: HardwareFacts|
            detected(f, architecture, cpu_vendor_raw@, gpus@) && #[trigger] evaluated(e, f),
{
    evaluate_eligibility(architecture, cpu_vendor_raw, gpus)
}

/// Require supported hardware, or fail with [`UnsupportedHardware`].
pub fn require_supported_hardware(el: HardwareEligibility) -> (r: core::result::Result<
    HardwareEligibility,
    UnsupportedHardware,
>)
    ensures
        el.supported ==> r == Ok::<HardwareEligibility, UnsupportedHardware>(el),
        !el.supported ==> (r matches Err(u) && u.message@ == summary_of(el) && *u.eligibility == el
            && u.exit_code == eligibility_exit_code(el)),
{
    if el.supported {
        Ok(el)
    } else {
        Err(UnsupportedHardware::from_eligibility(el))
    }
}

} // verus!
