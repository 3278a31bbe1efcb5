//! Machine inspection report for `kraftverk inspect`.
//!
//! The operating system is read at the edge of the program; the values read
//! are assembled, classified and fingerprinted here.

use vstd::prelude::*;

use crate::digest::{hex_lower, sha256, sha256_hex_prefix, push_utf8};
use crate::eligibility::detect::DetectedGpu;
use crate::eligibility::types::HardwareEligibility;
use crate::fingerprint::{fingerprint_text, machine_fingerprint};
use crate::text::{contains_seq, ascii_lower, decimal, hex4_upper, lower_contains, str_eq, u16_hex4_upper, usize_to_decimal, views};

verus! {

/// Availability of a sensor or device class.
#[derive(Debug, Clone)]
pub enum SensorStatus {
    Available,
    Unavailable { reason: String },
    Unsupported { reason: String },
}

/// CPU identity and size.
#[derive(Debug, Clone)]
pub struct CpuInfo {
    pub brand: String,
    pub vendor_id: String,
    pub physical_cores: usize,
    pub logical_cpus: usize,
    pub frequency_mhz: u64,
}

/// Memory totals in bytes.
#[derive(Debug, Clone)]
pub struct MemoryInfo {
    pub total_bytes: u64,
    pub available_bytes: u64,
}

/// One mounted storage volume.
#[derive(Debug, Clone)]
pub struct StorageVolume {
    pub name: String,
    pub mount_point: String,
    pub total_bytes: u64,
    pub available_bytes: u64,
    pub file_system: String,
}

/// A GPU as the inspect report lists it.
#[derive(Debug, Clone)]
pub struct GpuInfo {
    pub name: String,
    pub status: SensorStatus,
    pub notes: String,
}

/// Build and host facts recorded with a report.
#[derive(Debug, Clone)]
pub struct EnvironmentMeta {
    pub kraftverk_version: String,
    pub rustc_host: String,
    pub endian: String,
    pub pointer_width: String,
}

/// Everything `kraftverk inspect` reports about the machine.
#[derive(Debug, Clone)]
pub struct MachineReport {
    pub os_family: String,
    pub os_version: String,
    pub arch: String,
    pub hostname_hash: String,
    pub cpu: CpuInfo,
    pub memory: MemoryInfo,
    pub storage: Vec<StorageVolume>,
    pub gpus: Vec<GpuInfo>,
    pub temperature: SensorStatus,
    pub environment: EnvironmentMeta,
    pub fingerprint: String,
    pub unsupported: Vec<String>,
    /// AMD-only hardware eligibility (policy amd-only-v1).
    pub eligibility: Option<HardwareEligibility>,
}

/// What the operating system reported, as read at the edge of the program.
#[derive(Debug, Clone)]
pub struct MachineReadings {
    pub version: String,
    pub os_family: String,
    pub os_version: String,
    pub arch: String,
    pub hostname: String,
    pub cpu_brand: String,
    pub cpu_vendor_id: String,
    pub frequency_mhz: u64,
    /// Number of CPUs the OS lists (may be 0 when unknown).
    pub cpu_count: usize,
    pub physical_cores: Option<usize>,
    pub total_memory: u64,
    pub available_memory: u64,
    pub storage: Vec<StorageVolume>,
    pub gpus: Vec<DetectedGpu>,
    pub eligibility: HardwareEligibility,
    pub temperature_known: bool,
    pub power_known: bool,
    pub sensor_unavailable: Vec<String>,
    pub little_endian: bool,
    pub pointer_bits: usize,
}

/// Debug rendering of the optional `0xHHHH` PCI vendor id.
pub open spec fn pci_debug(id: Option<u16>) -> Seq<char> {
    match id {
        Some(v) => "Some(\"0x"@ + hex4_upper(v) + "\")"@,
        None => "None"@,
    }
}

/// Notes of a GPU found on the PCI bus.
pub open spec fn gpu_note(g: DetectedGpu) -> Seq<char> {
    "vendor="@ + g.vendor.name() + " pci="@ + pci_debug(g.pci_vendor_id) + " bus="@ + g.bus_id@
}

/// Notes of the placeholder entry when no GPU was found.
pub open spec fn no_gpu_note() -> Seq<char> {
    "Eligibility still evaluates CPU; no GPU present is allowed for AMD CPUs."@
}

/// The placeholder entry when no GPU was found on `os`.
pub open spec fn no_gpu_entry_ok(g: GpuInfo, os: Seq<char>) -> bool {
    if os == "windows"@ {
        &&& g.name@ == "none-detected"@
        &&& g.status matches SensorStatus::Unavailable { reason } && reason@
            == "No display-class PCI devices enumerated via registry"@
        &&& g.notes@ == no_gpu_note()
    } else if os == "linux"@ {
        &&& g.name@ == "none-detected"@
        &&& g.status matches SensorStatus::Unavailable { reason } && reason@
            == "No display-class devices under /sys/bus/pci"@
        &&& g.notes@ == no_gpu_note()
    } else {
        &&& g.name@ == "unsupported-os"@
        &&& g.status matches SensorStatus::Unsupported { reason } && reason@
            == "GPU discovery not implemented for "@ + os
        &&& g.notes@ == Seq::<char>::empty()
    }
}

/// The report's GPU list built from the detected devices.
pub open spec fn gpu_list_ok(r: Seq<GpuInfo>, detected: Seq<DetectedGpu>, os: Seq<char>) -> bool {
    if detected.len() > 0 {
        &&& r.len() == detected.len()
        &&& forall|i: int|
            0 <= i < r.len() ==> {
                &&& (#[trigger] r[i]).name@ == detected[i].name@
                &&& r[i].status is Available
                &&& r[i].notes@ == gpu_note(detected[i])
            }
    } else {
        r.len() == 1 && no_gpu_entry_ok(r[0], os)
    }
}

fn pci_debug_text(id: Option<u16>) -> (s: String)
    ensures
        s@ == pci_debug(id),
{
    match id {
        Some(v) => {
            let mut s = String::from_str("Some(\"0x");
            let h = u16_hex4_upper(v);
            s.append(h.as_str());
            s.append("\")");
            s
        },
        None => String::from_str("None"),
    }
}

/// The report's GPU entries: one per detected device, or one placeholder
/// saying why none is listed on the operating system `os`.
pub fn gpu_infos(detected: &Vec<DetectedGpu>, os: &str) -> (r: Vec<GpuInfo>)
    ensures
        gpu_list_ok(r@, detected@, os@),
{
    let mut out: Vec<GpuInfo> = Vec::new();
    if detected.len() > 0 {
        for i in 0..detected.len()
            invariant
                out.len() == i,
                forall|k: int|
                    0 <= k < i ==> {
                        &&& (#[trigger] out@[k]).name@ == detected@[k].name@
                        &&& out@[k].status is Available
                        &&& out@[k].notes@ == gpu_note(detected@[k])
                    },
        {
            let g = &detected[i];
            let mut notes = String::from_str("vendor=");
            notes.append(g.vendor.as_str());
            notes.append(" pci=");
            let p = pci_debug_text(g.pci_vendor_id);
            notes.append(p.as_str());
            notes.append(" bus=");
            notes.append(g.bus_id.as_str());
            out.push(GpuInfo { name: g.name.clone(), status: SensorStatus::Available, notes });
        }
        return out;
    }
    if str_eq(os, "windows") {
        out.push(
            GpuInfo {
                name: String::from_str("none-detected"),
                status: SensorStatus::Unavailable {
                    reason: String::from_str("No display-class PCI devices enumerated via registry"),
                },
                notes: String::from_str(
                    "Eligibility still evaluates CPU; no GPU present is allowed for AMD CPUs.",
                ),
            },
        );
    } else if str_eq(os, "linux") {
        out.push(
            GpuInfo {
                name: String::from_str("none-detected"),
                status: SensorStatus::Unavailable {
                    reason: String::from_str("No display-class devices under /sys/bus/pci"),
                },
                notes: String::from_str(
                    "Eligibility still evaluates CPU; no GPU present is allowed for AMD CPUs.",
                ),
            },
        );
    } else {
        let mut reason = String::from_str("GPU discovery not implemented for ");
        reason.append(os);
        out.push(
            GpuInfo {
                name: String::from_str("unsupported-os"),
                status: SensorStatus::Unsupported { reason },
                notes: String::new(),
            },
        );
    }
    out
}

/// The first note that mentions a temperature (ignoring ASCII case).
pub open spec fn first_temp_note(notes: Seq<Seq<char>>) -> Option<Seq<char>>
    decreases notes.len(),
{
    if notes.len() == 0 {
        None
    } else if contains_seq(ascii_lower(notes[0]), "temp"@) {
        Some(notes[0])
    } else {
        first_temp_note(notes.drop_first())
    }
}

/// Reason given when no sensor note explains the missing temperature.
pub open spec fn default_temp_reason() -> Seq<char> {
    "Temperature sensors unavailable on this host (not fabricated)"@
}

/// Temperature availability: available when a reading exists, otherwise
/// unavailable with the first sensor note about temperature.
pub fn temperature_status(temperature_known: bool, unavailable: &Vec<String>) -> (s: SensorStatus)
    ensures
        temperature_known ==> s is Available,
        !temperature_known ==> (s matches SensorStatus::Unavailable { reason } && reason@ == (
        match first_temp_note(views(unavailable@)) {
            Some(t) => t,
            None => default_temp_reason(),
        })),
{
    if temperature_known {
        return SensorStatus::Available;
    }
    let ghost all = views(unavailable@);
    let mut i: usize = 0;
    assert(all.skip(0) =~= all);
    while i < unavailable.len()
        invariant
            !temperature_known,
            i <= unavailable.len(),
            all == views(unavailable@),
            first_temp_note(all) == first_temp_note(all.skip(i as int)),
        decreases unavailable.len() - i,
    {
        proof {
            assert(all.skip(i as int)[0] == unavailable@[i as int]@);
        }
        if lower_contains(unavailable[i].as_str(), "temp") {
            return SensorStatus::Unavailable { reason: unavailable[i].clone() };
        }
        proof {
            assert(all.skip(i as int).drop_first() =~= all.skip(i + 1));
        }
        i = i + 1;
    }
    proof {
        assert(all.skip(i as int) =~= Seq::<Seq<char>>::empty());
    }
    SensorStatus::Unavailable { reason: String::from_str("Temperature sensors unavailable on this host (not fabricated)") }
}

/// No listed GPU is available.
pub open spec fn no_gpu_available(gpus: Seq<GpuInfo>) -> bool {
    forall|i: int| 0 <= i < gpus.len() ==> !((#[trigger] gpus[i]).status is Available)
}

/// The surfaces the report declares unsupported.
pub open spec fn unsupported_surfaces(temperature_known: bool, power_known: bool, no_gpu: bool) -> Seq<
    Seq<char>,
> {
    seq!["FAN RPM"@, "GPU clocks / utilization (vendor SDK)"@] + (if !temperature_known {
        seq!["CPU package temperature (no readable OS sensor)"@]
    } else {
        Seq::empty()
    }) + (if !power_known {
        seq!["Power draw (watts) \u{2014} no readable OS counter"@]
    } else {
        Seq::empty()
    }) + (if no_gpu {
        seq!["Detailed GPU enumeration"@]
    } else {
        Seq::empty()
    })
}

/// The surfaces the report declares unsupported, given which sensors read and
/// the GPU entries.
pub fn unsupported_list(temperature_known: bool, power_known: bool, gpus: &Vec<GpuInfo>) -> (v: Vec<String>)
    ensures
        views(v@) == unsupported_surfaces(temperature_known, power_known, no_gpu_available(gpus@)),
{
    let mut v: Vec<String> = Vec::new();
    v.push(String::from_str("FAN RPM"));
    v.push(String::from_str("GPU clocks / utilization (vendor SDK)"));
    let ghost a = views(v@);
    if !temperature_known {
        v.push(String::from_str("CPU package temperature (no readable OS sensor)"));
    }
    let ghost b = views(v@);
    if !power_known {
        v.push(String::from_str("Power draw (watts) \u{2014} no readable OS counter"));
    }
    let ghost c = views(v@);
    let mut none_available = true;
    for i in 0..gpus.len()
        invariant
            none_available <==> (forall|k: int| 0 <= k < i ==> !((#[trigger] gpus@[k]).status is Available)),
    {
        let avail = match &gpus[i].status {
            SensorStatus::Available => true,
            _ => false,
        };
        if avail {
            none_available = false;
        }
    }
    if none_available {
        v.push(String::from_str("Detailed GPU enumeration"));
    }
    proof {
        assert(a =~= seq!["FAN RPM"@, "GPU clocks / utilization (vendor SDK)"@]);
        assert(views(v@) =~= unsupported_surfaces(temperature_known, power_known, no_gpu_available(gpus@)));
    }
    v
}

/// First 12 lowercase hex digits of the SHA-256 of the host name.
pub open spec fn hostname_hash_text(hostname: Seq<char>) -> Seq<char> {
    hex_lower(sha256(vstd::utf8::encode_utf8(hostname))).take(12)
}

/// The host name, hashed so that the report holds no plain host name.
pub fn hash_hostname(hostname: &str) -> (h: String)
    ensures
        h@ == hostname_hash_text(hostname@),
{
    let mut bytes: Vec<u8> = Vec::new();
    push_utf8(&mut bytes, hostname);
    assert(bytes@ =~= vstd::utf8::encode_utf8(hostname@));
    sha256_hex_prefix(&bytes, 12)
}

/// The report assembled from the readings: CPU count at least 1, physical
/// cores defaulting to it, hashed host name, GPU entries, temperature status,
/// unsupported surfaces, environment facts, and the fingerprint of it all.
pub fn inspect_machine(readings: MachineReadings) -> (r: MachineReport)
    ensures
        r.os_family@ == readings.os_family@,
        r.os_version@ == readings.os_version@,
        r.arch@ == readings.arch@,
        r.hostname_hash@ == hostname_hash_text(readings.hostname@),
        r.cpu.brand@ == readings.cpu_brand@,
        r.cpu.vendor_id@ == readings.cpu_vendor_id@,
        r.cpu.frequency_mhz == readings.frequency_mhz,
        r.cpu.logical_cpus == (if readings.cpu_count >= 1 { readings.cpu_count } else { 1 }),
        r.cpu.physical_cores == (match readings.physical_cores {
            Some(p) => p,
            None => r.cpu.logical_cpus,
        }),
        r.memory.total_bytes == readings.total_memory,
        r.memory.available_bytes == readings.available_memory,
        r.storage@ == readings.storage@,
        gpu_list_ok(r.gpus@, readings.gpus@, readings.os_family@),
        readings.temperature_known ==> r.temperature is Available,
        !readings.temperature_known ==> (r.temperature matches SensorStatus::Unavailable {
            reason,
        } && reason@ == (match first_temp_note(views(readings.sensor_unavailable@)) {
            Some(t) => t,
            None => default_temp_reason(),
        })),
        views(r.unsupported@) == unsupported_surfaces(
            readings.temperature_known,
            readings.power_known,
            no_gpu_available(r.gpus@),
        ),
        r.environment.kraftverk_version@ == readings.version@,
        r.environment.rustc_host@ == readings.arch@,
        r.environment.endian@ == (if readings.little_endian { "little"@ } else { "big"@ }),
        r.environment.pointer_width@ == decimal(readings.pointer_bits as nat),
        r.eligibility == Some(readings.eligibility),
        r.fingerprint@ == fingerprint_text(r),
{
    let logical: usize = if readings.cpu_count >= 1 {
        readings.cpu_count
    } else {
        1
    };
    let physical: usize = match readings.physical_cores {
        Some(p) => p,
        None => logical,
    };
    let hostname_hash = hash_hostname(readings.hostname.as_str());
    let gpus = gpu_infos(&readings.gpus, readings.os_family.as_str());
    let temperature = temperature_status(readings.temperature_known, &readings.sensor_unavailable);
    let unsupported = unsupported_list(readings.temperature_known, readings.power_known, &gpus);
    let endian = if readings.little_endian {
        String::from_str("little")
    } else {
        String::from_str("big")
    };
    let mut report = MachineReport {
        os_family: readings.os_family,
        os_version: readings.os_version,
        arch: readings.arch.clone(),
        hostname_hash,
        cpu: CpuInfo {
            brand: readings.cpu_brand,
            vendor_id: readings.cpu_vendor_id,
            physical_cores: physical,
            logical_cpus: logical,
            frequency_mhz: readings.frequency_mhz,
        },
        memory: MemoryInfo {
            total_bytes: readings.total_memory,
            available_bytes: readings.available_memory,
        },
        storage: readings.storage,
        gpus,
        temperature,
        environment: EnvironmentMeta {
            kraftverk_version: readings.version,
            rustc_host: readings.arch,
            endian,
            pointer_width: usize_to_decimal(readings.pointer_bits),
        },
        fingerprint: String::new(),
        unsupported,
        eligibility: Some(readings.eligibility),
    };
    let fp = machine_fingerprint(&report);
    report.fingerprint = fp;
    report
}

} // verus!
