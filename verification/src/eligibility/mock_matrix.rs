//! Injectable hardware identities for deterministic eligibility checks.

use vstd::prelude::*;

use crate::eligibility::evaluate::{evaluate_from_facts, meets_policy, HardwareFacts};
use crate::eligibility::types::{
    Architecture, CpuVendor, GpuVendor, HardwareEligibility,
};
use crate::text::views;

verus! {

/// A hardware identity to evaluate without live detection.
#[derive(Debug, Clone)]
pub struct MockHardwareIdentity {
    pub architecture: Architecture,
    pub cpu_vendor: CpuVendor,
    pub cpu_vendor_raw: String,
    pub gpu_vendors: Vec<GpuVendor>,
    pub gpu_details: Vec<String>,
}

/// The facts an identity stands for: its detail lines, or the vendor names
/// when it lists none.
pub open spec fn identity_details(m: MockHardwareIdentity) -> Seq<Seq<char>> {
    if m.gpu_details@.len() == 0 {
        m.gpu_vendors@.map_values(|g: GpuVendor| g.name())
    } else {
        views(m.gpu_details@)
    }
}

/// The identity meets `amd-only-v1`.
pub open spec fn identity_supported(m: MockHardwareIdentity) -> bool {
    &&& m.architecture.supported()
    &&& m.cpu_vendor == CpuVendor::Amd
    &&& forall|i: int| 0 <= i < m.gpu_vendors@.len() ==> m.gpu_vendors@[i] == GpuVendor::Amd
}

impl MockHardwareIdentity {
    /// An AMD x86_64 machine without a GPU.
    pub fn amd_x86_64_no_gpu() -> (m: MockHardwareIdentity)
        ensures
            m.architecture == Architecture::X86_64,
            m.cpu_vendor == CpuVendor::Amd,
            m.cpu_vendor_raw@ == "AuthenticAMD"@,
            m.gpu_vendors@.len() == 0,
            m.gpu_details@.len() == 0,
    {
        MockHardwareIdentity {
            architecture: Architecture::X86_64,
            cpu_vendor: CpuVendor::Amd,
            cpu_vendor_raw: String::from_str("AuthenticAMD"),
            gpu_vendors: Vec::new(),
            gpu_details: Vec::new(),
        }
    }

    /// The facts this identity stands for.
    pub fn to_facts(&self) -> (f: HardwareFacts)
        ensures
            f.architecture == self.architecture,
            f.cpu_vendor == self.cpu_vendor,
            f.cpu_vendor_raw@ == self.cpu_vendor_raw@,
            f.gpu_vendors@ == self.gpu_vendors@,
            views(f.gpu_details@) == identity_details(*self),
    {
        let mut vendors: Vec<GpuVendor> = Vec::new();
        let mut details: Vec<String> = Vec::new();
        let n = self.gpu_vendors.len();
        for i in 0..n
            invariant
                n == self.gpu_vendors@.len(),
                vendors@ == self.gpu_vendors@.take(i as int),
                self.gpu_details@.len() == 0 ==> views(details@) == self.gpu_vendors@.take(
                    i as int,
                ).map_values(|g: GpuVendor| g.name()),
        {
            let g = self.gpu_vendors[i];
            vendors.push(g);
            assert(vendors@ =~= self.gpu_vendors@.take(i + 1));
            if self.gpu_details.len() == 0 {
                let ghost old = details@;
                details.push(String::from_str(g.as_str()));
                assert(views(details@) =~= views(old).push(g.name()));
                assert(self.gpu_vendors@.take(i + 1).map_values(|g: GpuVendor| g.name())
                    =~= self.gpu_vendors@.take(i as int).map_values(|g: GpuVendor| g.name()).push(
                    g.name(),
                ));
            }
        }
        assert(self.gpu_vendors@.take(n as int) =~= self.gpu_vendors@);
        if self.gpu_details.len() != 0 {
            details = Vec::new();
            let k = self.gpu_details.len();
            for j in 0..k
                invariant
                    k == self.gpu_details@.len(),
                    details@.len() == j,
                    forall|t: int| 0 <= t < j ==> details@[t]@ == self.gpu_details@[t]@,
            {
                details.push(self.gpu_details[j].clone());
            }
            assert(views(details@) =~= views(self.gpu_details@));
        }
        HardwareFacts {
            architecture: self.architecture,
            cpu_vendor: self.cpu_vendor,
            cpu_vendor_raw: self.cpu_vendor_raw.clone(),
            gpu_vendors: vendors,
            gpu_details: details,
        }
    }

    /// Evaluate this identity under the policy.
    pub fn evaluate(&self) -> (e: HardwareEligibility)
        ensures
            e.supported == identity_supported(*self),
            e.architecture == self.architecture,
            e.cpu_vendor == self.cpu_vendor,
            e.gpu_vendors@ == self.gpu_vendors@,
    {
        let f = self.to_facts();
        evaluate_from_facts(&f)
    }
}

fn push_case(
    v: &mut Vec<(&'static str, MockHardwareIdentity, bool)>,
    name: &'static str,
    identity: MockHardwareIdentity,
    expect_ok: bool,
)
    requires
        identity_supported(identity) == expect_ok,
        forall|i: int| 0 <= i < old(v)@.len() ==> identity_supported(#[trigger] old(v)@[i].1) == old(v)@[i].2,
    ensures
        final(v)@.len() == old(v)@.len() + 1,
        forall|i: int| 0 <= i < final(v)@.len() ==> identity_supported(#[trigger] final(v)@[i].1) == final(v)@[i].2,
{
    v.push((name, identity, expect_ok));
}

/// The vendor/architecture matrix covering the `amd-only-v1` policy surface:
/// a name, the identity, and whether the policy must accept it.
pub fn eligibility_matrix_cases() -> (v: Vec<(&'static str, MockHardwareIdentity, bool)>)
    ensures
        v@.len() == 15,
        forall|i: int| 0 <= i < v@.len() ==> identity_supported(#[trigger] v@[i].1) == v@[i].2,
{
    let mut v: Vec<(&'static str, MockHardwareIdentity, bool)> = Vec::new();
    push_case(&mut v, "amd_x86_64_no_gpu", MockHardwareIdentity::amd_x86_64_no_gpu(), true);
    let mut gpus: Vec<GpuVendor> = Vec::new();

    let mut details: Vec<String> = Vec::new();

    push_case(&mut v, "amd_x86_no_gpu", MockHardwareIdentity {
            architecture: Architecture::X86,
            cpu_vendor: CpuVendor::Amd,
            cpu_vendor_raw: String::from_str("AuthenticAMD"),
            gpu_vendors: gpus,
            gpu_details: details,
        }, true);
    let mut gpus: Vec<GpuVendor> = Vec::new();
    gpus.push(GpuVendor::Amd);
    let mut details: Vec<String> = Vec::new();
    details.push(String::from_str("Radeon (0x1002)"));
    push_case(&mut v, "amd_x86_64_amd_gpu", MockHardwareIdentity {
            architecture: Architecture::X86_64,
            cpu_vendor: CpuVendor::Amd,
            cpu_vendor_raw: String::from_str("AuthenticAMD"),
            gpu_vendors: gpus,
            gpu_details: details,
        }, true);
    let mut gpus: Vec<GpuVendor> = Vec::new();
    gpus.push(GpuVendor::Amd);
    gpus.push(GpuVendor::Amd);
    let mut details: Vec<String> = Vec::new();
    details.push(String::from_str("GPU0"));
    details.push(String::from_str("GPU1"));
    push_case(&mut v, "amd_x86_64_multi_amd_gpu", MockHardwareIdentity {
            architecture: Architecture::X86_64,
            cpu_vendor: CpuVendor::Amd,
            cpu_vendor_raw: String::from_str("AuthenticAMD"),
            gpu_vendors: gpus,
            gpu_details: details,
        }, true);
    let mut gpus: Vec<GpuVendor> = Vec::new();

    let mut details: Vec<String> = Vec::new();

    push_case(&mut v, "intel_cpu_blocked", MockHardwareIdentity {
            architecture: Architecture::X86_64,
            cpu_vendor: CpuVendor::Intel,
            cpu_vendor_raw: String::from_str("GenuineIntel"),
            gpu_vendors: gpus,
            gpu_details: details,
        }, false);
    let mut gpus: Vec<GpuVendor> = Vec::new();
    gpus.push(GpuVendor::Nvidia);
    let mut details: Vec<String> = Vec::new();
    details.push(String::from_str("RTX (0x10DE)"));
    assert(gpus@[0] == GpuVendor::Nvidia);
    push_case(&mut v, "amd_nvidia_blocked", MockHardwareIdentity {
            architecture: Architecture::X86_64,
            cpu_vendor: CpuVendor::Amd,
            cpu_vendor_raw: String::from_str("AuthenticAMD"),
            gpu_vendors: gpus,
            gpu_details: details,
        }, false);
    let mut gpus: Vec<GpuVendor> = Vec::new();
    gpus.push(GpuVendor::Amd);
    gpus.push(GpuVendor::Nvidia);
    let mut details: Vec<String> = Vec::new();
    details.push(String::from_str("Radeon"));
    details.push(String::from_str("NVIDIA"));
    assert(gpus@[1] == GpuVendor::Nvidia);
    push_case(&mut v, "amd_amd_plus_nvidia_blocked", MockHardwareIdentity {
            architecture: Architecture::X86_64,
            cpu_vendor: CpuVendor::Amd,
            cpu_vendor_raw: String::from_str("AuthenticAMD"),
            gpu_vendors: gpus,
            gpu_details: details,
        }, false);
    let mut gpus: Vec<GpuVendor> = Vec::new();
    gpus.push(GpuVendor::Intel);
    let mut details: Vec<String> = Vec::new();
    details.push(String::from_str("UHD (0x8086)"));
    assert(gpus@[0] == GpuVendor::Intel);
    push_case(&mut v, "amd_intel_gpu_blocked", MockHardwareIdentity {
            architecture: Architecture::X86_64,
            cpu_vendor: CpuVendor::Amd,
            cpu_vendor_raw: String::from_str("AuthenticAMD"),
            gpu_vendors: gpus,
            gpu_details: details,
        }, false);
    let mut gpus: Vec<GpuVendor> = Vec::new();
    gpus.push(GpuVendor::Amd);
    gpus.push(GpuVendor::Intel);
    let mut details: Vec<String> = Vec::new();
    details.push(String::from_str("Radeon"));
    details.push(String::from_str("Intel"));
    assert(gpus@[1] == GpuVendor::Intel);
    push_case(&mut v, "amd_amd_plus_intel_gpu_blocked", MockHardwareIdentity {
            architecture: Architecture::X86_64,
            cpu_vendor: CpuVendor::Amd,
            cpu_vendor_raw: String::from_str("AuthenticAMD"),
            gpu_vendors: gpus,
            gpu_details: details,
        }, false);
    let mut gpus: Vec<GpuVendor> = Vec::new();

    let mut details: Vec<String> = Vec::new();

    push_case(&mut v, "unknown_cpu_blocked", MockHardwareIdentity {
            architecture: Architecture::X86_64,
            cpu_vendor: CpuVendor::Unknown,
            cpu_vendor_raw: String::from_str("SomeOther"),
            gpu_vendors: gpus,
            gpu_details: details,
        }, false);
    let mut gpus: Vec<GpuVendor> = Vec::new();

    let mut details: Vec<String> = Vec::new();

    push_case(&mut v, "arm64_blocked", MockHardwareIdentity {
            architecture: Architecture::Arm64,
            cpu_vendor: CpuVendor::Amd,
            cpu_vendor_raw: String::from_str("AuthenticAMD"),
            gpu_vendors: gpus,
            gpu_details: details,
        }, false);
    let mut gpus: Vec<GpuVendor> = Vec::new();

    let mut details: Vec<String> = Vec::new();

    push_case(&mut v, "arm_blocked", MockHardwareIdentity {
            architecture: Architecture::Arm,
            cpu_vendor: CpuVendor::Amd,
            cpu_vendor_raw: String::from_str("AuthenticAMD"),
            gpu_vendors: gpus,
            gpu_details: details,
        }, false);
    let mut gpus: Vec<GpuVendor> = Vec::new();

    let mut details: Vec<String> = Vec::new();

    push_case(&mut v, "riscv_blocked", MockHardwareIdentity {
            architecture: Architecture::Riscv,
            cpu_vendor: CpuVendor::Amd,
            cpu_vendor_raw: String::from_str("AuthenticAMD"),
            gpu_vendors: gpus,
            gpu_details: details,
        }, false);
    let mut gpus: Vec<GpuVendor> = Vec::new();
    gpus.push(GpuVendor::Nvidia);
    let mut details: Vec<String> = Vec::new();
    details.push(String::from_str("NVIDIA"));
    push_case(&mut v, "intel_cpu_nvidia_gpu_blocked", MockHardwareIdentity {
            architecture: Architecture::X86_64,
            cpu_vendor: CpuVendor::Intel,
            cpu_vendor_raw: String::from_str("GenuineIntel"),
            gpu_vendors: gpus,
            gpu_details: details,
        }, false);
    let mut gpus: Vec<GpuVendor> = Vec::new();
    gpus.push(GpuVendor::Unknown);
    let mut details: Vec<String> = Vec::new();
    details.push(String::from_str("Mystery GPU"));
    assert(gpus@[0] == GpuVendor::Unknown);
    push_case(&mut v, "unknown_gpu_blocked", MockHardwareIdentity {
            architecture: Architecture::X86_64,
            cpu_vendor: CpuVendor::Amd,
            cpu_vendor_raw: String::from_str("AuthenticAMD"),
            gpu_vendors: gpus,
            gpu_details: details,
        }, false);
    v
}

} // verus!
