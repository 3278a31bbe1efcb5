//! AMD capability / topology insights (honest: no fabricated telemetry).
//!
//! The CPU and GPU readings come from the edge of the program; the insight
//! record is assembled here.

use vstd::prelude::*;

use crate::eligibility::detect::DetectedGpu;
use crate::eligibility::types::{CpuVendor, GpuVendor};
use crate::text::views;

verus! {

/// CPU topology hints; CCD/CCX counts stay unset unless reliably known.
#[derive(Debug, Clone)]
pub struct AmdCpuTopologyHints {
    pub physical_cores: Option<usize>,
    pub logical_cpus: Option<usize>,
    pub smt_likely: Option<bool>,
    pub packages: Option<usize>,
    /// CCD/CCX counts are only filled when reliably detectable; otherwise None.
    pub ccd_count: Option<usize>,
    pub ccx_per_ccd: Option<usize>,
    pub preferred_cores_note: String,
    pub detection_notes: Vec<String>,
}

/// AMD-facing capability surfaces of the machine.
#[derive(Debug, Clone)]
pub struct AmdCapabilities {
    pub cpu_is_amd: bool,
    pub cpu_brand: String,
    pub topology: AmdCpuTopologyHints,
    pub amd_gpus: Vec<String>,
    pub platform_profile_note: String,
    pub cache_aware_search_hooks: Vec<String>,
    pub unsupported_surfaces: Vec<String>,
}

/// `name [bus]` of each AMD GPU, in order.
pub open spec fn amd_gpu_labels(gpus: Seq<DetectedGpu>) -> Seq<Seq<char>>
    decreases gpus.len(),
{
    if gpus.len() == 0 {
        Seq::empty()
    } else if gpus.last().vendor == GpuVendor::Amd {
        amd_gpu_labels(gpus.drop_last()).push(gpus.last().name@ + " ["@ + gpus.last().bus_id@ + "]"@)
    } else {
        amd_gpu_labels(gpus.drop_last())
    }
}

/// The detection notes: two fixed notes, and one more when Linux exposes its
/// sysfs CPU topology.
pub open spec fn amd_detection_notes(linux_topology: bool) -> Seq<Seq<char>> {
    seq![
        "CCD/CCX enumeration requires vendor topology interfaces not yet wired \u{2014} left unset rather than guessed."@,
        "Preferred-core ranking is not fabricated; use OS scheduler hints when available."@,
    ] + if linux_topology {
        seq!["Linux sysfs CPU topology present; package/core IDs usable for affinity experiments."@]
    } else {
        Seq::empty()
    }
}

/// The capability record for the readings: whether the CPU is AMD, its brand,
/// the CPU counts (logical at least 1, SMT likely when there are more logical
/// CPUs than physical cores), the fixed notes, and the AMD GPUs.
pub fn amd_capabilities(
    cpu_vendor: CpuVendor,
    cpu_brand: String,
    logical: usize,
    physical: Option<usize>,
    linux_topology: bool,
    gpus: &Vec<DetectedGpu>,
) -> (c: AmdCapabilities)
    ensures
        c.cpu_is_amd == (cpu_vendor == CpuVendor::Amd),
        c.cpu_brand@ == cpu_brand@,
        c.topology.physical_cores == physical,
        c.topology.logical_cpus == Some(if logical >= 1 { logical } else { 1usize }),
        c.topology.smt_likely == (match physical {
            Some(p) => Some(logical > p),
            None => None::<bool>,
        }),
        c.topology.packages == Some(1usize),
        c.topology.ccd_count is None,
        c.topology.ccx_per_ccd is None,
        c.topology.preferred_cores_note@
            == "Preferred cores not exposed portably; Kraftverk will not invent rankings."@,
        views(c.topology.detection_notes@) == amd_detection_notes(linux_topology),
        views(c.amd_gpus@) == amd_gpu_labels(gpus@),
        c.platform_profile_note@ == "AMD Platform Profile characterization is optional and not assumed; when unavailable it is reported as unsupported rather than simulated."@,
        views(c.cache_aware_search_hooks@) == seq![
            "chase: optional worker/affinity candidates may bias toward topology-local threads when physical_cores known"@,
            "optimizer: empirical only \u{2014} no assumed cache-size wins without measurement"@,
        ],
        views(c.unsupported_surfaces@) == seq![
            "undocumented MSR / SMU writes"@,
            "fabricated CCD/CCX maps"@,
            "GPU clock / power telemetry without a real backend"@,
        ],
{
    let mut notes: Vec<String> = Vec::new();
    notes.push(
        String::from_str(
            "CCD/CCX enumeration requires vendor topology interfaces not yet wired \u{2014} left unset rather than guessed.",
        ),
    );
    notes.push(
        String::from_str(
            "Preferred-core ranking is not fabricated; use OS scheduler hints when available.",
        ),
    );
    if linux_topology {
        notes.push(
            String::from_str(
                "Linux sysfs CPU topology present; package/core IDs usable for affinity experiments.",
            ),
        );
    }
    assert(views(notes@) =~= amd_detection_notes(linux_topology));
    let mut amd_gpus: Vec<String> = Vec::new();
    for i in 0..gpus.len()
        invariant
            views(amd_gpus@) == amd_gpu_labels(gpus@.take(i as int)),
    {
        proof {
            assert(gpus@.take(i + 1).drop_last() =~= gpus@.take(i as int));
            assert(gpus@.take(i + 1).last() == gpus@[i as int]);
        }
        if gpus[i].vendor == GpuVendor::Amd {
            let mut label = gpus[i].name.clone();
            label.append(" [");
            label.append(gpus[i].bus_id.as_str());
            label.append("]");
            let ghost before = views(amd_gpus@);
            amd_gpus.push(label);
            assert(views(amd_gpus@) =~= before.push(label@));
        }
    }
    assert(gpus@.take(gpus.len() as int) =~= gpus@);
    let smt_likely = match physical {
        Some(p) => Some(logical > p),
        None => None,
    };
    let mut hooks: Vec<String> = Vec::new();
    hooks.push(
        String::from_str(
            "chase: optional worker/affinity candidates may bias toward topology-local threads when physical_cores known",
        ),
    );
    hooks.push(
        String::from_str(
            "optimizer: empirical only \u{2014} no assumed cache-size wins without measurement",
        ),
    );
    let mut unsupported: Vec<String> = Vec::new();
    unsupported.push(String::from_str("undocumented MSR / SMU writes"));
    unsupported.push(String::from_str("fabricated CCD/CCX maps"));
    unsupported.push(String::from_str("GPU clock / power telemetry without a real backend"));
    assert(views(hooks@) =~= seq![
        "chase: optional worker/affinity candidates may bias toward topology-local threads when physical_cores known"@,
        "optimizer: empirical only \u{2014} no assumed cache-size wins without measurement"@,
    ]);
    assert(views(unsupported@) =~= seq![
        "undocumented MSR / SMU writes"@,
        "fabricated CCD/CCX maps"@,
        "GPU clock / power telemetry without a real backend"@,
    ]);
    AmdCapabilities {
        cpu_is_amd: cpu_vendor == CpuVendor::Amd,
        cpu_brand,
        topology: AmdCpuTopologyHints {
            physical_cores: physical,
            logical_cpus: Some(if logical >= 1 { logical } else { 1 }),
            smt_likely,
            packages: Some(1),
            ccd_count: None,
            ccx_per_ccd: None,
            preferred_cores_note: String::from_str(
                "Preferred cores not exposed portably; Kraftverk will not invent rankings.",
            ),
            detection_notes: notes,
        },
        amd_gpus,
        platform_profile_note: String::from_str(
            "AMD Platform Profile characterization is optional and not assumed; when unavailable it is reported as unsupported rather than simulated.",
        ),
        cache_aware_search_hooks: hooks,
        unsupported_surfaces: unsupported,
    }
}

} // verus!
