//! Hot-plug / mid-session hardware revalidation.
//!
//! Detection is I/O and happens at the caller; these functions decide what a
//! fresh eligibility reading means for a running session.

use vstd::prelude::*;

use crate::eligibility::types::{
    GpuVendor, HardwareEligibility, HardwareRejection, Rejection, rejection_views, summary_text,
};
use crate::error::Error;

verus! {

/// What a running session must do after a hardware re-check.
#[derive(Debug, Clone, PartialEq, Eq)]
pub enum HotplugAction {
    Continue,
    /// NVIDIA (or other forbidden hardware) appeared: stop, restore, block.
    AbortBlock { reason: String },
}

/// Model of a [`HotplugAction`].
pub enum Hotplug {
    Continue,
    AbortBlock { reason: Seq<char> },
}

impl View for HotplugAction {
    type V = Hotplug;

    open spec fn view(&self) -> Hotplug {
        match self {
            HotplugAction::Continue => Hotplug::Continue,
            HotplugAction::AbortBlock { reason } => Hotplug::AbortBlock { reason: reason@ },
        }
    }
}

/// The summary text of an eligibility value.
pub open spec fn summary_of(e: HardwareEligibility) -> Seq<char> {
    summary_text(
        e.supported,
        e.policy@,
        e.architecture,
        e.cpu_vendor,
        e.gpu_vendors@,
        rejection_views(e.rejection_reasons@),
    )
}

/// An NVIDIA GPU is reported by the reading, as a vendor or as a rejection.
pub open spec fn reports_nvidia(e: HardwareEligibility) -> bool {
    ||| exists|i: int|
        0 <= i < e.rejection_reasons@.len() && e.rejection_reasons@[i]@ is NvidiaGpuDetected
    ||| e.gpu_vendors@.contains(GpuVendor::Nvidia)
}

/// The action for a fresh reading `current`, given the reading at session start.
pub open spec fn hotplug_decision(previous: HardwareEligibility, current: HardwareEligibility) -> Hotplug {
    if current.supported {
        Hotplug::Continue
    } else if reports_nvidia(current) && !previous.gpu_vendors@.contains(GpuVendor::Nvidia) {
        let reason = if current.rejection_reasons@.len() > 0 {
            current.rejection_reasons@[0]@.message()
        } else {
            "NVIDIA GPU appeared mid-session"@
        };
        Hotplug::AbortBlock {
            reason: "Hot-plug policy: "@ + reason
                + ". Stopping experiments, reverting managed config, blocking further execution."@,
        }
    } else {
        Hotplug::AbortBlock {
            reason: "Hardware eligibility lost mid-session: "@ + summary_of(current),
        }
    }
}

fn contains_nvidia(v: &Vec<GpuVendor>) -> (r: bool)
    ensures
        r == v@.contains(GpuVendor::Nvidia),
{
    let n = v.len();
    for i in 0..n
        invariant
            n == v@.len(),
            forall|j: int| 0 <= j < i ==> v@[j] != GpuVendor::Nvidia,
    {
        if v[i] == GpuVendor::Nvidia {
            return true;
        }
    }
    false
}

fn any_nvidia_rejection(v: &Vec<HardwareRejection>) -> (r: bool)
    ensures
        r == exists|i: int| 0 <= i < v@.len() && v@[i]@ is NvidiaGpuDetected,
{
    let n = v.len();
    for i in 0..n
        invariant
            n == v@.len(),
            forall|j: int| 0 <= j < i ==> !(v@[j]@ is NvidiaGpuDetected),
    {
        if let HardwareRejection::NvidiaGpuDetected { .. } = &v[i] {
            return true;
        }
    }
    false
}

/// Decide what a fresh eligibility reading `current` means for a session that
/// started with `previous`; the reading is handed back unchanged.
pub fn recheck_eligibility(previous: &HardwareEligibility, current: HardwareEligibility) -> (r: (
    HardwareEligibility,
    HotplugAction,
))
    ensures
        r.0 == current,
        r.1@ == hotplug_decision(*previous, current),
{
    if current.supported {
        return (current, HotplugAction::Continue);
    }
    let nvidia_now = any_nvidia_rejection(&current.rejection_reasons) || contains_nvidia(
        &current.gpu_vendors,
    );
    let nvidia_before = contains_nvidia(&previous.gpu_vendors);
    if nvidia_now && !nvidia_before {
        let reason = match current.primary_rejection() {
            Some(r) => r.message(),
            None => String::from_str("NVIDIA GPU appeared mid-session"),
        };
        let mut text = String::from_str("Hot-plug policy: ");
        text.append(reason.as_str());
        text.append(
            ". Stopping experiments, reverting managed config, blocking further execution.",
        );
        return (current, HotplugAction::AbortBlock { reason: text });
    }
    let summary = current.summary();
    let mut text = String::from_str("Hardware eligibility lost mid-session: ");
    text.append(summary.as_str());
    (current, HotplugAction::AbortBlock { reason: text })
}

/// Session-scoped guard holding the eligibility reading at session start.
pub struct SessionGuard {
    pub initial: HardwareEligibility,
}

impl SessionGuard {
    /// Start a session on a supported reading; a blocked reading is refused with its summary.
    pub fn start(initial: HardwareEligibility) -> (r: Result<SessionGuard, Error>)
        ensures
            initial.supported ==> (r matches Ok(g) && g.initial == initial),
            !initial.supported ==> (r matches Err(Error::UnsupportedHardware(m)) && m@
                == summary_of(initial)),
    {
        if !initial.supported {
            return Err(Error::UnsupportedHardware(initial.summary()));
        }
        Ok(SessionGuard { initial })
    }

    /// Check a fresh reading against the session's start: continue with it, or
    /// refuse with the abort reason.
    pub fn assert_still_supported(&self, current: HardwareEligibility) -> (r: Result<
        HardwareEligibility,
        Error,
    >)
        ensures
            hotplug_decision(self.initial, current) is Continue ==> (r matches Ok(e) && e == current),
            hotplug_decision(self.initial, current) matches Hotplug::AbortBlock { reason } ==> (
            r matches Err(Error::UnsupportedHardware(m)) && m@ == reason),
    {
        let (cur, action) = recheck_eligibility(&self.initial, current);
        match action {
            HotplugAction::Continue => Ok(cur),
            HotplugAction::AbortBlock { reason } => Err(Error::UnsupportedHardware(reason)),
        }
    }
}

} // verus!
