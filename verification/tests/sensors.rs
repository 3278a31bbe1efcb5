use kraftverk::sensors::{find_first, pick_temperatures, SampleLabel, SensorKind, TempRule};

fn sample(kind: SensorKind, name: &str, source: &str) -> SampleLabel {
    SampleLabel { kind, name: name.to_string(), source: source.to_string() }
}

#[test]
fn cpu_label_wins_over_earlier_plain_samples() {
    let v = vec![
        sample(SensorKind::Temperature, "nvme/Composite", "hwmon:/sys/class/hwmon/hwmon0"),
        sample(SensorKind::Temperature, "amdgpu/edge", "hwmon:/sys/class/hwmon/hwmon1 (amdgpu)"),
        sample(SensorKind::Temperature, "k10temp/Tctl", "hwmon:/sys/class/hwmon/hwmon2"),
    ];
    assert_eq!(pick_temperatures(&v), (Some(2), Some(1)));
}

#[test]
fn labels_are_matched_ignoring_ascii_case() {
    let v = vec![sample(SensorKind::Temperature, "zen/TDIE", "x")];
    assert_eq!(find_first(&v, TempRule::CpuLabel), Some(0));
    let v = vec![sample(SensorKind::Temperature, "x", "hwmon:AMDGPU")];
    assert_eq!(find_first(&v, TempRule::GpuSource), Some(0));
}

#[test]
fn fallback_skips_gpu_nvme_and_acpi_zones() {
    let v = vec![
        sample(SensorKind::Power, "rapl/package-0", "powercap:rapl"),
        sample(SensorKind::Temperature, "acpitz/temp1", "hwmon:acpitz"),
        sample(SensorKind::Temperature, "nvme/temp1", "hwmon:nvme0"),
        sample(SensorKind::Temperature, "it8686/temp3", "hwmon:it8686"),
    ];
    assert_eq!(pick_temperatures(&v), (Some(3), None));
}

#[test]
fn non_temperature_samples_are_never_picked() {
    let v = vec![sample(SensorKind::Power, "cpu package", "k10temp amdgpu")];
    assert_eq!(pick_temperatures(&v), (None, None));
    assert_eq!(pick_temperatures(&Vec::new()), (None, None));
}
