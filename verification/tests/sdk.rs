use kraftverk::eligibility::detect::DetectedGpu;
use kraftverk::eligibility::evaluate::{evaluate_eligibility, evaluate_from_facts, HardwareFacts};
use kraftverk::eligibility::hotplug::{recheck_eligibility, HotplugAction, SessionGuard};
use kraftverk::eligibility::types::{Architecture, CpuVendor, GpuVendor, HardwareEligibility};
use kraftverk::error::Error;
use kraftverk::sdk::{check_hardware, require_supported_hardware, Kraftverk, UnsupportedHardware};

fn eligibility(cpu: CpuVendor, gpus: Vec<GpuVendor>) -> HardwareEligibility {
    evaluate_from_facts(&HardwareFacts {
        architecture: Architecture::X86_64,
        cpu_vendor: cpu,
        cpu_vendor_raw: if cpu == CpuVendor::Amd { "AuthenticAMD".into() } else { "GenuineIntel".into() },
        gpu_details: gpus.iter().map(|g| g.as_str().to_string()).collect(),
        gpu_vendors: gpus,
    })
}

#[test]
fn open_refuses_blocked_hardware() {
    let blocked = eligibility(CpuVendor::Intel, vec![]);
    match Kraftverk::open_default(blocked, "kv-x".into()) {
        Err(Error::UnsupportedHardware(m)) => assert!(m.starts_with("BLOCKED under amd-only-v1: Intel CPU detected.")),
        _ => panic!("expected refusal"),
    }
}

#[test]
fn open_and_revalidate() {
    let ok = eligibility(CpuVendor::Amd, vec![GpuVendor::Amd]);
    let k = Kraftverk::open_default(ok, "kv-1234".into()).ok().unwrap();
    assert_eq!(k.fingerprint, "kv-1234");
    assert!(k.eligibility.supported);
    assert_eq!(k.hardware_policy(), "amd-only-v1");
    assert!(k.revalidate(eligibility(CpuVendor::Amd, vec![])).is_ok());
    match k.revalidate(eligibility(CpuVendor::Amd, vec![GpuVendor::Nvidia])) {
        Err(Error::UnsupportedHardware(m)) => assert!(m.starts_with("Hot-plug policy: NVIDIA GPU detected (nvidia).")),
        _ => panic!("expected abort"),
    }
}

#[test]
fn unsupported_hardware_carries_exit_code() {
    let u = UnsupportedHardware::from_eligibility(eligibility(CpuVendor::Amd, vec![GpuVendor::Nvidia]));
    assert_eq!(u.exit_code, 22);
    assert!(u.message.starts_with("BLOCKED under amd-only-v1"));
    let e: Error = u.into();
    assert!(matches!(e, Error::UnsupportedHardware(_)));
    let none = UnsupportedHardware::from_eligibility(eligibility(CpuVendor::Amd, vec![]));
    assert_eq!(none.exit_code, 25);
    assert!(require_supported_hardware(eligibility(CpuVendor::Amd, vec![])).is_ok());
    match require_supported_hardware(eligibility(CpuVendor::Intel, vec![])) {
        Err(u) => assert_eq!(u.exit_code, 21),
        Ok(_) => panic!("expected refusal"),
    }
}

#[test]
fn check_hardware_from_detected_devices() {
    let gpus = vec![DetectedGpu {
        vendor: GpuVendor::Nvidia,
        pci_vendor_id: Some(0x10DE),
        name: "GeForce".into(),
        bus_id: "01:00.0".into(),
    }];
    let e = check_hardware(Architecture::X86_64, "AuthenticAMD".into(), &gpus);
    assert!(!e.supported);
    assert_eq!(e.gpu_details, vec!["GeForce (pci=\"0x10DE\" bus=01:00.0)"]);
    let f = evaluate_eligibility(Architecture::X86_64, "AuthenticAMD".into(), &vec![]);
    assert!(f.supported);
}

#[test]
fn hotplug_decisions() {
    let start = eligibility(CpuVendor::Amd, vec![]);
    let (_, a) = recheck_eligibility(&start, eligibility(CpuVendor::Amd, vec![GpuVendor::Amd]));
    assert!(matches!(a, HotplugAction::Continue));
    let (_, b) = recheck_eligibility(&start, eligibility(CpuVendor::Amd, vec![GpuVendor::Intel]));
    assert!(matches!(b, HotplugAction::AbortBlock { reason } if reason.starts_with("Hardware eligibility lost mid-session: BLOCKED")));
    let guard = SessionGuard::start(start).ok().unwrap();
    assert!(guard.assert_still_supported(eligibility(CpuVendor::Intel, vec![])).is_err());
}
