use kraftverk::eligibility::evaluate::{evaluate_from_facts, HardwareFacts};
use kraftverk::eligibility::exit_codes::exit_code_for;
use kraftverk::eligibility::types::{
    Architecture, CompatibilityStatus, CpuVendor, GpuVendor, HardwareRejection, HARDWARE_POLICY,
};

fn facts(arch: Architecture, cpu: CpuVendor, raw: &str, gpus: Vec<GpuVendor>) -> HardwareFacts {
    HardwareFacts {
        architecture: arch,
        cpu_vendor: cpu,
        cpu_vendor_raw: raw.into(),
        gpu_details: gpus.iter().map(|g| g.as_str().to_string()).collect(),
        gpu_vendors: gpus,
    }
}

#[test]
fn amd_cpu_amd_gpu_passes() {
    let e = evaluate_from_facts(&facts(
        Architecture::X86_64,
        CpuVendor::Amd,
        "AuthenticAMD",
        vec![GpuVendor::Amd],
    ));
    assert!(e.supported);
    assert_eq!(e.compatibility, CompatibilityStatus::Supported);
    assert_eq!(e.policy, HARDWARE_POLICY);
}

#[test]
fn amd_cpu_no_gpu_passes() {
    let e = evaluate_from_facts(&facts(Architecture::X86_64, CpuVendor::Amd, "AuthenticAMD", vec![]));
    assert!(e.supported, "{:?}", e.rejection_reasons);
}

#[test]
fn amd_plus_nvidia_fails() {
    let e = evaluate_from_facts(&facts(
        Architecture::X86_64,
        CpuVendor::Amd,
        "AuthenticAMD",
        vec![GpuVendor::Amd, GpuVendor::Nvidia],
    ));
    assert!(!e.supported);
    assert!(e
        .rejection_reasons
        .iter()
        .any(|r| matches!(r, HardwareRejection::NvidiaGpuDetected { .. })));
}

#[test]
fn intel_cpu_fails() {
    let e = evaluate_from_facts(&facts(
        Architecture::X86_64,
        CpuVendor::Intel,
        "GenuineIntel",
        vec![GpuVendor::Amd],
    ));
    assert!(!e.supported);
    assert!(e
        .rejection_reasons
        .iter()
        .any(|r| matches!(r, HardwareRejection::IntelCpuDetected)));
}

#[test]
fn intel_nvidia_fails() {
    let e = evaluate_from_facts(&facts(
        Architecture::X86_64,
        CpuVendor::Intel,
        "GenuineIntel",
        vec![GpuVendor::Nvidia],
    ));
    assert!(!e.supported);
}

#[test]
fn amd_intel_gpu_fails() {
    let e = evaluate_from_facts(&facts(
        Architecture::X86_64,
        CpuVendor::Amd,
        "AuthenticAMD",
        vec![GpuVendor::Amd, GpuVendor::Intel],
    ));
    assert!(!e.supported);
    assert!(e
        .rejection_reasons
        .iter()
        .any(|r| matches!(r, HardwareRejection::IntelGpuDetected { .. })));
}

#[test]
fn arm_fails() {
    let e = evaluate_from_facts(&facts(Architecture::Arm64, CpuVendor::Amd, "AuthenticAMD", vec![]));
    assert!(!e.supported);
    assert!(e
        .rejection_reasons
        .iter()
        .any(|r| matches!(r, HardwareRejection::UnsupportedArchitecture { .. })));
}

#[test]
fn unknown_cpu_fails() {
    let e = evaluate_from_facts(&facts(Architecture::X86_64, CpuVendor::Unknown, "SomeOther", vec![]));
    assert!(!e.supported);
    assert!(e
        .rejection_reasons
        .iter()
        .any(|r| matches!(r, HardwareRejection::UnknownCpuVendor { .. })));
}

#[test]
fn nvidia_only_fails() {
    let e = evaluate_from_facts(&facts(
        Architecture::X86_64,
        CpuVendor::Amd,
        "AuthenticAMD",
        vec![GpuVendor::Nvidia],
    ));
    assert!(!e.supported);
    assert_eq!(exit_code_for(e.primary_rejection().unwrap()).as_i32(), 22);
}

#[test]
fn multi_amd_gpu_passes() {
    let e = evaluate_from_facts(&facts(
        Architecture::X86_64,
        CpuVendor::Amd,
        "AuthenticAMD",
        vec![GpuVendor::Amd, GpuVendor::Amd],
    ));
    assert!(e.supported, "{:?}", e.rejection_reasons);
}

#[test]
fn x86_amd_passes() {
    let e = evaluate_from_facts(&facts(Architecture::X86, CpuVendor::Amd, "AuthenticAMD", vec![]));
    assert!(e.supported);
}
