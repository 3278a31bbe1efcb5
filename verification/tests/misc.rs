use kraftverk::amd::amd_capabilities;
use kraftverk::constraints::{allows_at_most, ConstraintCheck};
use kraftverk::eligibility::detect::DetectedGpu;
use kraftverk::eligibility::types::{CpuVendor, GpuVendor};
use kraftverk::reports::html_escape;
use kraftverk::sensors::{SensorKind, SensorUnit};
use kraftverk::topology::{CpuTopology, Topology};

#[test]
fn html_escape_entities() {
    assert_eq!(html_escape("a<b> & \"c\""), "a&lt;b&gt; &amp; &quot;c&quot;");
    assert_eq!(html_escape("&lt;"), "&amp;lt;");
    assert_eq!(html_escape("plain \u{2192} text"), "plain \u{2192} text");
}

#[test]
fn constraint_checks() {
    assert!(ConstraintCheck::from_findings(vec![], vec!["max-temp (no temperature sensor)".into()]).ok);
    assert!(!ConstraintCheck::from_findings(vec!["too hot".into()], vec![]).ok);
    assert!(allows_at_most(None, 1000));
    assert!(allows_at_most(Some(8), 8));
    assert!(!allows_at_most(Some(8), 9));
}

#[test]
fn topology_from_parallelism() {
    let t = CpuTopology::from_parallelism(Some(12));
    assert_eq!((t.physical_cores, t.logical_cpus, t.packages), (12, 12, 1));
    let u = CpuTopology::from_parallelism(None);
    assert_eq!(u.logical_cpus, 1);
    let topo = Topology { cpu: u, total_memory_bytes: 0 };
    assert_eq!(topo.cpu.packages, 1);
}

#[test]
fn sensor_kinds_compare() {
    assert_ne!(SensorKind::Temperature, SensorKind::Power);
    assert_eq!(SensorUnit::Watts, SensorUnit::Watts);
}

#[test]
fn amd_insights() {
    let gpus = vec![
        DetectedGpu { vendor: GpuVendor::Amd, pci_vendor_id: Some(0x1002), name: "Radeon".into(), bus_id: "03:00.0".into() },
        DetectedGpu { vendor: GpuVendor::Nvidia, pci_vendor_id: Some(0x10DE), name: "GeForce".into(), bus_id: "01:00.0".into() },
    ];
    let c = amd_capabilities(CpuVendor::Amd, "AMD Ryzen 9".into(), 16, Some(8), true, &gpus);
    assert!(c.cpu_is_amd);
    assert_eq!(c.amd_gpus, vec!["Radeon [03:00.0]"]);
    assert_eq!(c.topology.smt_likely, Some(true));
    assert_eq!(c.topology.logical_cpus, Some(16));
    assert_eq!(c.topology.detection_notes.len(), 3);
    assert_eq!(c.topology.ccd_count, None);
    let d = amd_capabilities(CpuVendor::Intel, "x".into(), 0, None, false, &vec![]);
    assert!(!d.cpu_is_amd);
    assert_eq!(d.topology.logical_cpus, Some(1));
    assert_eq!(d.topology.smt_likely, None);
    assert_eq!(d.topology.detection_notes.len(), 2);
}
