use kraftverk::eligibility::detect::DetectedGpu;
use kraftverk::eligibility::evaluate::{evaluate_from_facts, HardwareFacts};
use kraftverk::eligibility::types::{Architecture, CpuVendor, GpuVendor};
use kraftverk::fingerprint::machine_fingerprint;
use kraftverk::inspect::{
    gpu_infos, hash_hostname, inspect_machine, temperature_status, unsupported_list, GpuInfo,
    MachineReadings, SensorStatus,
};

fn readings(gpus: Vec<DetectedGpu>, temperature_known: bool) -> MachineReadings {
    let facts = HardwareFacts {
        architecture: Architecture::X86_64,
        cpu_vendor: CpuVendor::Amd,
        cpu_vendor_raw: "AuthenticAMD".into(),
        gpu_vendors: vec![GpuVendor::Amd],
        gpu_details: vec!["Radeon".into()],
    };
    MachineReadings {
        version: "0.2.0".into(),
        os_family: "linux".into(),
        os_version: "6.1".into(),
        arch: "x86_64".into(),
        hostname: "host".into(),
        cpu_brand: "AMD Ryzen".into(),
        cpu_vendor_id: "AuthenticAMD".into(),
        frequency_mhz: 4200,
        cpu_count: 16,
        physical_cores: Some(8),
        total_memory: 34359738368,
        available_memory: 1 << 30,
        storage: vec![],
        gpus,
        eligibility: evaluate_from_facts(&facts),
        temperature_known,
        power_known: false,
        sensor_unavailable: vec!["power: no RAPL".into(), "Temp: no hwmon zone".into()],
        little_endian: true,
        pointer_bits: 64,
    }
}

fn radeon() -> DetectedGpu {
    DetectedGpu {
        vendor: GpuVendor::Amd,
        pci_vendor_id: Some(0x1002),
        name: "Radeon".into(),
        bus_id: "0000:03:00.0".into(),
    }
}

#[test]
fn hostname_hash_is_sha256_prefix() {
    assert_eq!(hash_hostname("host"), "4740ae6347b0");
}

#[test]
fn report_fields_and_fingerprint() {
    let r = inspect_machine(readings(vec![radeon()], false));
    assert_eq!(r.cpu.logical_cpus, 16);
    assert_eq!(r.cpu.physical_cores, 8);
    assert_eq!(r.hostname_hash, "4740ae6347b0");
    assert_eq!(r.environment.endian, "little");
    assert_eq!(r.environment.pointer_width, "64");
    assert_eq!(r.environment.rustc_host, "x86_64");
    assert_eq!(r.gpus.len(), 1);
    assert_eq!(r.gpus[0].notes, "vendor=amd pci=Some(\"0x1002\") bus=0000:03:00.0");
    assert!(matches!(&r.temperature, SensorStatus::Unavailable { reason } if reason == "Temp: no hwmon zone"));
    assert_eq!(
        r.unsupported,
        vec![
            "FAN RPM",
            "GPU clocks / utilization (vendor SDK)",
            "CPU package temperature (no readable OS sensor)",
            "Power draw (watts) \u{2014} no readable OS counter",
        ]
    );
    assert_eq!(r.fingerprint, "kv-e5dc3bf8d684c31c");
    assert_eq!(machine_fingerprint(&r), r.fingerprint);
}

#[test]
fn fingerprint_without_eligibility_uses_blocked() {
    let mut r = inspect_machine(readings(vec![], true));
    r.eligibility = None;
    assert_eq!(machine_fingerprint(&r), "kv-06dd32056b8bb10f");
}

#[test]
fn report_defaults_for_unknown_counts() {
    let mut rd = readings(vec![], true);
    rd.cpu_count = 0;
    rd.physical_cores = None;
    let r = inspect_machine(rd);
    assert_eq!(r.cpu.logical_cpus, 1);
    assert_eq!(r.cpu.physical_cores, 1);
    assert!(matches!(r.temperature, SensorStatus::Available));
    assert_eq!(r.gpus[0].name, "none-detected");
    assert_eq!(r.unsupported.last().map(|s| s.as_str()), Some("Detailed GPU enumeration"));
}

#[test]
fn gpu_placeholders_per_os() {
    let w = gpu_infos(&vec![], "windows");
    assert!(matches!(&w[0].status, SensorStatus::Unavailable { reason } if reason == "No display-class PCI devices enumerated via registry"));
    let m = gpu_infos(&vec![], "macos");
    assert_eq!(m[0].name, "unsupported-os");
    assert!(matches!(&m[0].status, SensorStatus::Unsupported { reason } if reason == "GPU discovery not implemented for macos"));
    assert_eq!(m[0].notes, "");
}

#[test]
fn temperature_reason_defaults() {
    let s = temperature_status(false, &vec!["power only".to_string()]);
    assert!(matches!(&s, SensorStatus::Unavailable { reason } if reason == "Temperature sensors unavailable on this host (not fabricated)"));
}

#[test]
fn unsupported_with_available_gpu() {
    let gpus = vec![GpuInfo { name: "g".into(), status: SensorStatus::Available, notes: String::new() }];
    assert_eq!(unsupported_list(true, true, &gpus), vec!["FAN RPM", "GPU clocks / utilization (vendor SDK)"]);
}
