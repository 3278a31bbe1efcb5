use kraftverk::eligibility::types::HardwareRejection;

fn all(payload: &str) -> Vec<HardwareRejection> {
    vec![
        HardwareRejection::UnsupportedArchitecture { arch: payload.into() },
        HardwareRejection::IntelCpuDetected,
        HardwareRejection::NvidiaGpuDetected { detail: payload.into() },
        HardwareRejection::IntelGpuDetected { detail: payload.into() },
        HardwareRejection::UnknownCpuVendor { raw: payload.into() },
        HardwareRejection::UnsupportedGpuVendor { detail: payload.into() },
        HardwareRejection::MixedGpuVendors { detail: payload.into() },
        HardwareRejection::UnsupportedHardwareCombination { detail: payload.into() },
    ]
}

#[test]
fn messages_name_their_rejection() {
    let mut msgs = Vec::new();
    for p in ["", "arm", "nvidia,intel"] {
        for r in all(p) {
            let m = r.message();
            if r != HardwareRejection::IntelCpuDetected {
                assert!(m.contains(p));
            }
            msgs.push((m, r));
        }
    }
    for (i, (m1, r1)) in msgs.iter().enumerate() {
        for (m2, r2) in msgs.iter().skip(i + 1) {
            if m1 == m2 {
                assert_eq!(r1, r2);
            }
        }
    }
    assert_eq!(
        HardwareRejection::IntelCpuDetected.message(),
        "Intel CPU detected. Kraftverk is an AMD-exclusive performance platform (policy amd-only-v1)."
    );
}
