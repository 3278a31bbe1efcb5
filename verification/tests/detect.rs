use kraftverk::eligibility::detect::{
    architecture_from_name, collect_hardware_facts, dedup_gpus_by_bus, gpu_from_registry,
    gpu_from_sysfs, is_display_class, parse_hex_u16, parse_hex_u32, parse_ven_from_pci_key,
    vendor_from_cpuinfo, DetectedGpu,
};
use kraftverk::eligibility::types::{Architecture, CpuVendor, GpuVendor};

#[test]
fn parse_ven_key() {
    assert_eq!(parse_ven_from_pci_key("VEN_10DE&DEV_2204&SUBSYS_1234&REV_A1"), Some(0x10DE));
    assert_eq!(parse_ven_from_pci_key("VEN_1002&DEV_73BF&SUBSYS_0000&REV_C1"), Some(0x1002));
}

#[test]
fn pci_vendor_map() {
    assert_eq!(GpuVendor::from_pci_vendor_id(0x1002), GpuVendor::Amd);
    assert_eq!(GpuVendor::from_pci_vendor_id(0x10DE), GpuVendor::Nvidia);
    assert_eq!(GpuVendor::from_pci_vendor_id(0x8086), GpuVendor::Intel);
}

#[test]
fn ven_key_edge_cases() {
    assert_eq!(parse_ven_from_pci_key("ven_1002&dev_73bf"), Some(0x1002));
    assert_eq!(parse_ven_from_pci_key("DEV_73BF"), None);
    assert_eq!(parse_ven_from_pci_key("VEN_10"), None);
    assert_eq!(parse_ven_from_pci_key("VEN_ZZZZ&DEV_1"), None);
}

#[test]
fn sysfs_hex_values() {
    assert_eq!(parse_hex_u16(" 0x1002\n"), Some(0x1002));
    assert_eq!(parse_hex_u16("0X10de"), Some(0x10DE));
    assert_eq!(parse_hex_u16("0x10000"), None);
    assert_eq!(parse_hex_u32("0x030000"), Some(0x030000));
    assert!(is_display_class(0x030000));
    assert!(is_display_class(0x038000));
    assert!(!is_display_class(0x040300));
}

#[test]
fn architecture_names() {
    assert_eq!(architecture_from_name("x86_64"), Architecture::X86_64);
    assert_eq!(architecture_from_name("aarch64"), Architecture::Arm64);
    assert_eq!(architecture_from_name("riscv64"), Architecture::Riscv);
    assert_eq!(architecture_from_name("mips"), Architecture::Other);
}

#[test]
fn sysfs_display_device_becomes_gpu() {
    let g = gpu_from_sysfs("0000:03:00.0".into(), "0x1002\n", "0x030000\n", Some("0x73bf\n".into()))
        .unwrap();
    assert_eq!(g.vendor, GpuVendor::Amd);
    assert_eq!(g.pci_vendor_id, Some(0x1002));
    assert_eq!(g.name, "PCI display 1002:0x73bf");
    assert_eq!(g.bus_id, "0000:03:00.0");
    let unnamed = gpu_from_sysfs("b".into(), "0x10de", "0x030200", None).unwrap();
    assert_eq!(unnamed.name, "PCI display vendor=0x10DE");
    assert!(gpu_from_sysfs("b".into(), "0x1002", "0x040300", None).is_none());
    assert!(gpu_from_sysfs("b".into(), "garbage", "0x030000", None).is_none());
    assert!(gpu_from_sysfs("b".into(), "0x1002", "garbage", None).is_none());
}

#[test]
fn registry_display_key_becomes_gpu() {
    let g = gpu_from_registry(
        "VEN_1002&DEV_73BF&SUBSYS_0000&REV_C1".into(),
        Some("display".into()),
        Some("@oem12.inf,%desc%;AMD Radeon RX 6800 ".into()),
    )
    .unwrap();
    assert_eq!(g.vendor, GpuVendor::Amd);
    assert_eq!(g.name, "AMD Radeon RX 6800");
    assert_eq!(g.bus_id, "VEN_1002&DEV_73BF&SUBSYS_0000&REV_C1");
    let plain = gpu_from_registry("VEN_10DE&DEV_2204".into(), Some("Display".into()), None).unwrap();
    assert_eq!(plain.name, "PCI VEN_10DE");
    assert!(gpu_from_registry("VEN_1002&DEV_AB28".into(), Some("MEDIA".into()), None).is_none());
    assert!(gpu_from_registry("VEN_1002&DEV_AB28".into(), None, None).is_none());
    assert!(gpu_from_registry("ROOT_HUB".into(), Some("Display".into()), None).is_none());
}

fn gpu(vendor: GpuVendor, name: &str, bus: &str) -> DetectedGpu {
    DetectedGpu { vendor, pci_vendor_id: Some(0x1002), name: name.into(), bus_id: bus.into() }
}

#[test]
fn dedup_keeps_first_per_bus() {
    let v = dedup_gpus_by_bus(vec![
        gpu(GpuVendor::Amd, "a", "bus1"),
        gpu(GpuVendor::Amd, "b", "bus2"),
        gpu(GpuVendor::Nvidia, "c", "bus1"),
    ]);
    let names: Vec<&str> = v.iter().map(|g| g.name.as_str()).collect();
    assert_eq!(names, vec!["a", "b"]);
}

#[test]
fn cpuinfo_vendor_line() {
    let text = "processor\t: 0\nvendor_id\t: AuthenticAMD\ncpu family\t: 25\n";
    assert_eq!(vendor_from_cpuinfo(text), Some("AuthenticAMD".to_string()));
    assert_eq!(vendor_from_cpuinfo("vendor_id\t:\nvendor_id : GenuineIntel"), Some("GenuineIntel".to_string()));
    assert_eq!(vendor_from_cpuinfo("model name : x\n"), None);
    assert_eq!(vendor_from_cpuinfo(""), None);
}

#[test]
fn facts_keep_distinct_vendors_and_details() {
    let gpus = vec![
        gpu(GpuVendor::Amd, "Radeon", "03:00.0"),
        gpu(GpuVendor::Amd, "Radeon", "04:00.0"),
        DetectedGpu { vendor: GpuVendor::Nvidia, pci_vendor_id: None, name: "GeForce".into(), bus_id: "05:00.0".into() },
    ];
    let f = collect_hardware_facts(Architecture::X86_64, "AuthenticAMD".into(), &gpus);
    assert_eq!(f.gpu_vendors, vec![GpuVendor::Amd, GpuVendor::Nvidia]);
    assert_eq!(f.gpu_details[0], "Radeon (pci=\"0x1002\" bus=03:00.0)");
    assert_eq!(f.gpu_details[2], "GeForce (pci=\"n/a\" bus=05:00.0)");
    assert_eq!(f.cpu_vendor, CpuVendor::Amd);
    let intel = collect_hardware_facts(Architecture::X86_64, "GenuineIntel".into(), &vec![]);
    assert_eq!(intel.cpu_vendor, CpuVendor::Intel);
    assert!(intel.gpu_vendors.is_empty());
    let odd = collect_hardware_facts(Architecture::X86_64, "HygonGenuine".into(), &vec![]);
    assert_eq!(odd.cpu_vendor, CpuVendor::Unknown);
}
