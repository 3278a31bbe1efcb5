use kraftverk::eligibility::exit_codes::{exit_code_for, ExitCode};
use kraftverk::eligibility::mock_matrix::{eligibility_matrix_cases, MockHardwareIdentity};
use kraftverk::eligibility::types::{
    Architecture, CompatibilityStatus, CpuVendor, GpuVendor, HardwareRejection, HARDWARE_POLICY,
};

#[test]
fn exit_codes_match_policy_doc() {
    assert_eq!(ExitCode::UnsupportedArchitecture.as_i32(), 20);
    assert_eq!(ExitCode::IntelCpu.as_i32(), 21);
    assert_eq!(ExitCode::NvidiaGpu.as_i32(), 22);
    assert_eq!(ExitCode::IntelGpu.as_i32(), 23);
    assert_eq!(ExitCode::UnknownCpuVendor.as_i32(), 24);
    assert_eq!(ExitCode::UnsupportedCombination.as_i32(), 25);
}

#[test]
fn mock_platform_matrix_covers_all_combos() {
    let cases = eligibility_matrix_cases();
    assert!(cases.len() >= 14, "matrix too small: {}", cases.len());
    for (name, identity, expect_ok) in cases {
        let e = identity.evaluate();
        assert_eq!(
            e.supported, expect_ok,
            "{name}: expected supported={expect_ok}, got {:?}; reasons={:?}",
            e.compatibility, e.rejection_reasons
        );
        assert_eq!(e.policy, HARDWARE_POLICY);
        if expect_ok {
            assert_eq!(e.compatibility, CompatibilityStatus::Supported);
        } else {
            assert_eq!(e.compatibility, CompatibilityStatus::Blocked);
            assert!(!e.rejection_reasons.is_empty());
        }
    }
}

#[test]
fn matrix_exit_codes_align() {
    let intel = MockHardwareIdentity {
        architecture: Architecture::X86_64,
        cpu_vendor: CpuVendor::Intel,
        cpu_vendor_raw: "GenuineIntel".into(),
        gpu_vendors: vec![],
        gpu_details: vec![],
    }
    .evaluate();
    assert_eq!(exit_code_for(intel.primary_rejection().unwrap()), ExitCode::IntelCpu);

    let nvidia = MockHardwareIdentity {
        architecture: Architecture::X86_64,
        cpu_vendor: CpuVendor::Amd,
        cpu_vendor_raw: "AuthenticAMD".into(),
        gpu_vendors: vec![GpuVendor::Nvidia],
        gpu_details: vec!["nv".into()],
    }
    .evaluate();
    assert_eq!(exit_code_for(nvidia.primary_rejection().unwrap()), ExitCode::NvidiaGpu);

    let arch = MockHardwareIdentity {
        architecture: Architecture::Arm64,
        cpu_vendor: CpuVendor::Amd,
        cpu_vendor_raw: "AuthenticAMD".into(),
        gpu_vendors: vec![],
        gpu_details: vec![],
    }
    .evaluate();
    assert!(matches!(
        arch.primary_rejection().unwrap(),
        HardwareRejection::UnsupportedArchitecture { .. }
    ));
    assert_eq!(
        exit_code_for(arch.primary_rejection().unwrap()),
        ExitCode::UnsupportedArchitecture
    );
}
