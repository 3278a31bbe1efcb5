//! Parsing and assembly for live hardware detection.
//!
//! Reading CPUID, sysfs and the Windows registry happens at the edge of the
//! program; the values read are interpreted here.

use vstd::prelude::*;

use crate::eligibility::evaluate::HardwareFacts;
use crate::eligibility::types::{cpu_vendor_of, gpu_vendor_of_pci, Architecture, CpuVendor, GpuVendor};
use crate::text::{
    ascii_upper, ascii_upper_char, chars_of, has_prefix, lemma_radix16_upper, parse_radix16,
    radix16, starts_with, str_eq, strip_prefix_all, trim, trim_start_matches, trim_str, views,
    hex4_upper, u16_hex4_upper, hex4_lower, u16_hex4_lower, after_last_semicolon,
    after_last_semicolon_str, eq_ignore_ascii_case, ascii_lower,
};

verus! {

/// A display-class PCI device found by the detector.
#[derive(Debug, Clone)]
pub struct DetectedGpu {
    pub vendor: GpuVendor,
    pub pci_vendor_id: Option<u16>,
    pub name: String,
    pub bus_id: String,
}

/// `VEN_` (ignoring ASCII case) starts at position `i`.
pub open spec fn is_ven_at(c: Seq<char>, i: int) -> bool {
    &&& 0 <= i
    &&& i + 4 <= c.len()
    &&& ascii_upper_char(c[i]) == 'V'
    &&& ascii_upper_char(c[i + 1]) == 'E'
    &&& ascii_upper_char(c[i + 2]) == 'N'
    &&& c[i + 3] == '_'
}

/// First position at or after `k` where `VEN_` starts.
pub open spec fn first_ven_from(c: Seq<char>, k: int) -> Option<int>
    decreases c.len() - k,
{
    if k < 0 || k + 4 > c.len() {
        None
    } else if is_ven_at(c, k) {
        Some(k)
    } else {
        first_ven_from(c, k + 1)
    }
}

/// The PCI vendor id in a registry key such as `VEN_1002&DEV_73BF&...`: the
/// four characters after the first `VEN_`, read as hexadecimal.
pub open spec fn ven_id_of(key: Seq<char>) -> Option<u16> {
    let u = ascii_upper(key);
    match first_ven_from(key, 0) {
        Some(i) => if i + 8 <= key.len() {
            match radix16(u.subrange(i + 4, i + 8), 0xFFFF) {
                Some(v) => Some(v as u16),
                None => None,
            }
        } else {
            None
        },
        None => None,
    }
}

fn upper_is(c: char, target: char) -> (r: bool)
    requires
        'A' <= target && target <= 'Z',
    ensures
        r == (ascii_upper_char(c) == target),
{
    if 'a' <= c && c <= 'z' {
        assert((((c as u32) - 32) as char) as u32 == (c as u32) - 32);
        (c as u32) - 32 == target as u32
    } else {
        c == target
    }
}

/// Extract the vendor id from a PCI enumeration key (`VEN_xxxx&DEV_...`).
pub fn parse_ven_from_pci_key(key: &str) -> (r: Option<u16>)
    ensures
        r == ven_id_of(key@),
{
    let c = chars_of(key);
    let n = c.len();
    let mut i: usize = 0;
    while i < n && n - i >= 4
        invariant
            n == c@.len(),
            c@ == key@,
            first_ven_from(key@, 0) == first_ven_from(key@, i as int),
        decreases n - i,
    {
        if upper_is(c[i], 'V') && upper_is(c[i + 1], 'E') && upper_is(c[i + 2], 'N') && c[i + 3]
            == '_' {
            assert(first_ven_from(key@, i as int) == Some(i as int));
            if n - i < 8 {
                return None;
            }
            proof {
                lemma_radix16_upper(key@.subrange(i + 4, i + 8), 0xFFFF);
                assert(ascii_upper(key@).subrange(i + 4, i + 8) =~= ascii_upper(
                    key@.subrange(i + 4, i + 8),
                ));
            }
            return match parse_radix16(&c, i + 4, i + 8, 0xFFFF) {
                Some(v) => Some(v as u16),
                None => None,
            };
        }
        i = i + 1;
    }
    None
}

/// The hexadecimal number in a sysfs attribute such as ` 0x1002\n`: trimmed,
/// with any leading `0x` and then `0X` prefixes removed.
pub open spec fn sysfs_hex(s: Seq<char>, max: nat) -> Option<nat> {
    radix16(strip_prefix_all(strip_prefix_all(trim(s), "0x"@), "0X"@), max)
}

fn sysfs_hex_value(s: &str, max: u64) -> (r: Option<u64>)
    ensures
        r == (match sysfs_hex(s@, max as nat) {
            Some(x) => Some(x as u64),
            None => None,
        }),
{
    proof {
        reveal_strlit("0x");
        reveal_strlit("0X");
    }
    let t = trim_str(s);
    let t = trim_start_matches(t, "0x");
    let t = trim_start_matches(t, "0X");
    let v = chars_of(t);
    assert(v@.subrange(0, v@.len() as int) =~= v@);
    parse_radix16(&v, 0, v.len(), max)
}

/// Parse a sysfs hexadecimal `u16` (PCI vendor ids).
pub fn parse_hex_u16(s: &str) -> (r: Option<u16>)
    ensures
        r == (match sysfs_hex(s@, 0xFFFF) {
            Some(x) => Some(x as u16),
            None => None,
        }),
{
    match sysfs_hex_value(s, 0xFFFF) {
        Some(v) => Some(v as u16),
        None => None,
    }
}

/// Parse a sysfs hexadecimal `u32` (PCI class codes).
pub fn parse_hex_u32(s: &str) -> (r: Option<u32>)
    ensures
        r == (match sysfs_hex(s@, 0xFFFF_FFFF) {
            Some(x) => Some(x as u32),
            None => None,
        }),
{
    match sysfs_hex_value(s, 0xFFFF_FFFF) {
        Some(v) => Some(v as u32),
        None => None,
    }
}

/// A PCI class code denotes a display controller (class `0x03xxxx`).
pub fn is_display_class(class: u32) -> (r: bool)
    ensures
        r == ((class / 0x10000) % 0x100 == 3),
{
    proof {
        assert(((class >> 16u32) & 0xFFu32) == (class / 0x10000) % 0x100) by (bit_vector);
    }
    ((class >> 16) & 0xFF) == 0x03
}

/// The architecture named by a Rust target architecture string.
pub open spec fn architecture_of(name: Seq<char>) -> Architecture {
    if name == "x86"@ {
        Architecture::X86
    } else if name == "x86_64"@ {
        Architecture::X86_64
    } else if name == "arm"@ {
        Architecture::Arm
    } else if name == "aarch64"@ {
        Architecture::Arm64
    } else if has_prefix(name, "riscv"@) {
        Architecture::Riscv
    } else {
        Architecture::Other
    }
}

/// Classify a target architecture name such as `std::env::consts::ARCH`.
pub fn architecture_from_name(name: &str) -> (a: Architecture)
    ensures
        a == architecture_of(name@),
{
    if str_eq(name, "x86") {
        Architecture::X86
    } else if str_eq(name, "x86_64") {
        Architecture::X86_64
    } else if str_eq(name, "arm") {
        Architecture::Arm
    } else if str_eq(name, "aarch64") {
        Architecture::Arm64
    } else if starts_with(name, "riscv") {
        Architecture::Riscv
    } else {
        Architecture::Other
    }
}


/// Distinct vendors in order of first appearance.
pub open spec fn first_occurrences(s: Seq<GpuVendor>) -> Seq<GpuVendor>
    decreases s.len(),
{
    if s.len() == 0 {
        Seq::empty()
    } else if s.drop_last().contains(s.last()) {
        first_occurrences(s.drop_last())
    } else {
        first_occurrences(s.drop_last()).push(s.last())
    }
}

proof fn lemma_first_occurrences_contains(s: Seq<GpuVendor>, x: GpuVendor)
    ensures
        first_occurrences(s).contains(x) == s.contains(x),
    decreases s.len(),
{
    if s.len() > 0 {
        let d = s.drop_last();
        lemma_first_occurrences_contains(d, x);
        assert(s =~= d.push(s.last()));
        assert(s.contains(x) == (d.contains(x) || x == s.last())) by {
            if s.contains(x) {
                let i = choose|i: int| 0 <= i < s.len() && s[i] == x;
                if i < s.len() - 1 {
                    assert(d[i] == x);
                }
            }
            if d.contains(x) {
                let i = choose|i: int| 0 <= i < d.len() && d[i] == x;
                assert(s[i] == x);
            }
            if x == s.last() {
                assert(s[s.len() - 1] == x);
            }
        }
        let f = first_occurrences(d);
        if d.contains(s.last()) {
            assert(first_occurrences(s) == f);
        } else {
            assert(first_occurrences(s) == f.push(s.last()));
            assert(f.push(s.last()).contains(x) == (f.contains(x) || x == s.last())) by {
                let g = f.push(s.last());
                if g.contains(x) {
                    let i = choose|i: int| 0 <= i < g.len() && g[i] == x;
                    if i < f.len() {
                        assert(f[i] == x);
                    }
                }
                if f.contains(x) {
                    let i = choose|i: int| 0 <= i < f.len() && f[i] == x;
                    assert(g[i] == x);
                }
                if x == s.last() {
                    assert(g[f.len() as int] == x);
                }
            }
        }
    }
}

/// The detail line recorded for a detected GPU: `name (pci="0x1002" bus=...)`.
pub open spec fn gpu_detail(g: DetectedGpu) -> Seq<char> {
    let pci = match g.pci_vendor_id {
        Some(id) => "0x"@ + hex4_upper(id),
        None => "n/a"@,
    };
    g.name@ + " (pci=\""@ + pci + "\" bus="@ + g.bus_id@ + ")"@
}

fn gpu_detail_text(g: &DetectedGpu) -> (r: String)
    ensures
        r@ == gpu_detail(*g),
{
    let mut s = g.name.clone();
    s.append(" (pci=\"");
    match g.pci_vendor_id {
        Some(id) => {
            s.append("0x");
            let h = u16_hex4_upper(id);
            s.append(h.as_str());
        },
        None => {
            s.append("n/a");
        },
    }
    s.append("\" bus=");
    s.append(g.bus_id.as_str());
    s.append(")");
    s
}

/// `f` holds what the detectors read: the architecture, the CPU vendor with
/// its raw string, the distinct GPU vendors in order of first appearance, and
/// one detail line per GPU.
pub open spec fn detected(
    f: HardwareFacts,
    architecture: Architecture,
    cpu_vendor_raw: Seq<char>,
    gpus: Seq<DetectedGpu>,
) -> bool {
    &&& f.architecture == architecture
    &&& f.cpu_vendor == cpu_vendor_of(cpu_vendor_raw)
    &&& f.cpu_vendor_raw@ == cpu_vendor_raw
    &&& f.gpu_vendors@ == first_occurrences(gpus.map_values(|g: DetectedGpu| g.vendor))
    &&& views(f.gpu_details@) == gpus.map_values(|g: DetectedGpu| gpu_detail(g))
}

/// Assemble the eligibility facts from what the detectors read: the
/// architecture, the raw CPU vendor string (the vendor is classified from
/// it), and the GPUs.
pub fn collect_hardware_facts(
    architecture: Architecture,
    cpu_vendor_raw: String,
    gpus: &Vec<DetectedGpu>,
) -> (f: HardwareFacts)
    ensures
        f.architecture == architecture,
        f.cpu_vendor == cpu_vendor_of(cpu_vendor_raw@),
        f.cpu_vendor_raw@ == cpu_vendor_raw@,
        f.gpu_vendors@ == first_occurrences(gpus@.map_values(|g: DetectedGpu| g.vendor)),
        views(f.gpu_details@) == gpus@.map_values(|g: DetectedGpu| gpu_detail(g)),
{
    let mut vendors: Vec<GpuVendor> = Vec::new();
    let mut details: Vec<String> = Vec::new();
    let n = gpus.len();
    let ghost all = gpus@.map_values(|g: DetectedGpu| g.vendor);
    for i in 0..n
        invariant
            n == gpus@.len(),
            all == gpus@.map_values(|g: DetectedGpu| g.vendor),
            vendors@ == first_occurrences(all.take(i as int)),
            views(details@) == gpus@.take(i as int).map_values(|g: DetectedGpu| gpu_detail(g)),
    {
        let v = gpus[i].vendor;
        let ghost pre = all.take(i as int);
        assert(all.take(i + 1).drop_last() =~= pre);
        assert(all.take(i + 1).last() == v);
        let mut present = false;
        let k = vendors.len();
        for j in 0..k
            invariant
                k == vendors@.len(),
                present == exists|t: int| 0 <= t < j && vendors@[t] == v,
        {
            if vendors[j] == v {
                present = true;
            }
        }
        proof {
            lemma_first_occurrences_contains(pre, v);
            assert(present == vendors@.contains(v));
        }
        if !present {
            vendors.push(v);
        }
        let d = gpu_detail_text(&gpus[i]);
        let ghost old_details = details@;
        details.push(d);
        proof {
            assert(views(details@) =~= views(old_details).push(d@));
            assert(gpus@.take(i + 1).map_values(|g: DetectedGpu| gpu_detail(g)) =~= gpus@.take(
                i as int,
            ).map_values(|g: DetectedGpu| gpu_detail(g)).push(gpu_detail(gpus@[i as int])));
        }
    }
    assert(all.take(n as int) =~= all);
    assert(gpus@.take(n as int) =~= gpus@);
    let cpu_vendor = CpuVendor::from_cpuid_string(cpu_vendor_raw.as_str());
    HardwareFacts { architecture, cpu_vendor, cpu_vendor_raw, gpu_vendors: vendors, gpu_details: details }
}

/// The view of an optional string.
pub open spec fn opt_text(o: Option<String>) -> Option<Seq<char>> {
    match o {
        Some(s) => Some(s@),
        None => None,
    }
}

/// The name of a GPU found in sysfs: `PCI display <vid:04x>:<device>` when
/// its device file was read, else `PCI display vendor=0x<VID:04X>`.
pub open spec fn sysfs_gpu_name(vid: u16, device: Option<Seq<char>>) -> Seq<char> {
    match device {
        Some(d) => "PCI display "@ + hex4_lower(vid) + ":"@ + trim(d),
        None => "PCI display vendor=0x"@ + hex4_upper(vid),
    }
}

/// What one sysfs PCI device contributes: a GPU exactly when its class is a
/// display controller (an unreadable class counts as 0) and its vendor id
/// parses.
pub open spec fn sysfs_gpu_ok(
    g: Option<DetectedGpu>,
    bus: Seq<char>,
    vendor_text: Seq<char>,
    class_text: Seq<char>,
    device: Option<Seq<char>>,
) -> bool {
    let class = match sysfs_hex(trim(class_text), 0xFFFF_FFFF) {
        Some(c) => c,
        None => 0,
    };
    match sysfs_hex(trim(vendor_text), 0xFFFF) {
        Some(v) => if (class / 0x10000) % 0x100 == 3 {
            &&& g matches Some(d)
            &&& d.vendor == gpu_vendor_of_pci(v as u16)
            &&& d.pci_vendor_id == Some(v as u16)
            &&& d.name@ == sysfs_gpu_name(v as u16, device)
            &&& d.bus_id@ == bus
        } else {
            g is None
        },
        None => g is None,
    }
}

/// Interpret one PCI device read from `/sys/bus/pci/devices`: its bus
/// directory name, the contents of its `vendor` and `class` files, and of
/// its `device` file when readable.
pub fn gpu_from_sysfs(
    bus_id: String,
    vendor_text: &str,
    class_text: &str,
    device_text: Option<String>,
) -> (g: Option<DetectedGpu>)
    ensures
        sysfs_gpu_ok(g, bus_id@, vendor_text@, class_text@, opt_text(device_text)),
{
    let vendor_id = parse_hex_u16(trim_str(vendor_text));
    let class = match parse_hex_u32(trim_str(class_text)) {
        Some(c) => c,
        None => 0,
    };
    if !is_display_class(class) {
        return None;
    }
    let vid = match vendor_id {
        Some(v) => v,
        None => {
            return None;
        },
    };
    let name = match &device_text {
        Some(d) => {
            let mut n = String::from_str("PCI display ");
            let h = u16_hex4_lower(vid);
            n.append(h.as_str());
            n.append(":");
            n.append(trim_str(d.as_str()));
            n
        },
        None => {
            let mut n = String::from_str("PCI display vendor=0x");
            let h = u16_hex4_upper(vid);
            n.append(h.as_str());
            n
        },
    };
    Some(DetectedGpu { vendor: GpuVendor::from_pci_vendor_id(vid), pci_vendor_id: Some(vid), name, bus_id })
}

/// What one Windows PCI enumeration key contributes: a GPU exactly when the
/// key names a vendor and its first instance has the `Display` class
/// (ignoring ASCII case); its name is the device description after the last
/// `;`, trimmed, or `PCI VEN_<VID:04X>`.
pub open spec fn registry_gpu_ok(
    g: Option<DetectedGpu>,
    key: Seq<char>,
    class: Option<Seq<char>>,
    description: Option<Seq<char>>,
) -> bool {
    match ven_id_of(key) {
        None => g is None,
        Some(vid) => {
            let display = match class {
                Some(c) => ascii_lower(c) == ascii_lower("Display"@),
                None => false,
            };
            if display {
                &&& g matches Some(d)
                &&& d.vendor == gpu_vendor_of_pci(vid)
                &&& d.pci_vendor_id == Some(vid)
                &&& d.name@ == (match description {
                    Some(t) => trim(after_last_semicolon(t)),
                    None => "PCI VEN_"@ + hex4_upper(vid),
                })
                &&& d.bus_id@ == key
            } else {
                g is None
            }
        },
    }
}

/// Interpret one Windows PCI enumeration key with the `Class` and
/// `DeviceDesc` values of its first instance, when they were read.
pub fn gpu_from_registry(key_name: String, class: Option<String>, description: Option<String>) -> (g:
    Option<DetectedGpu>)
    ensures
        registry_gpu_ok(g, key_name@, opt_text(class), opt_text(description)),
{
    let vid = match parse_ven_from_pci_key(key_name.as_str()) {
        Some(v) => v,
        None => {
            return None;
        },
    };
    let display = match &class {
        Some(c) => eq_ignore_ascii_case(c.as_str(), "Display"),
        None => false,
    };
    if !display {
        return None;
    }
    let name = match &description {
        Some(d) => String::from_str(trim_str(after_last_semicolon_str(d.as_str()))),
        None => {
            let mut n = String::from_str("PCI VEN_");
            let h = u16_hex4_upper(vid);
            n.append(h.as_str());
            n
        },
    };
    Some(DetectedGpu { vendor: GpuVendor::from_pci_vendor_id(vid), pci_vendor_id: Some(vid), name, bus_id: key_name })
}

/// Some device of `s` is on bus `b`.
pub open spec fn bus_seen(s: Seq<DetectedGpu>, b: Seq<char>) -> bool {
    exists|j: int| 0 <= j < s.len() && (#[trigger] s[j]).bus_id@ == b
}

/// The devices in order, keeping the first of each bus id.
pub open spec fn dedup_by_bus(s: Seq<DetectedGpu>) -> Seq<DetectedGpu>
    decreases s.len(),
{
    if s.len() == 0 {
        Seq::empty()
    } else if bus_seen(s.drop_last(), s.last().bus_id@) {
        dedup_by_bus(s.drop_last())
    } else {
        dedup_by_bus(s.drop_last()).push(s.last())
    }
}

/// Deduplicate detected devices by bus id, keeping the first of each.
pub fn dedup_gpus_by_bus(gpus: Vec<DetectedGpu>) -> (r: Vec<DetectedGpu>)
    ensures
        r@ == dedup_by_bus(gpus@),
{
    let ghost all = gpus@;
    let mut rest = gpus;
    let mut out: Vec<DetectedGpu> = Vec::new();
    let ghost mut i: int = 0;
    while rest.len() > 0
        invariant
            0 <= i <= all.len(),
            rest.len() + i == all.len(),
            rest@ == all.skip(i),
            out@ == dedup_by_bus(all.take(i)),
            forall|b: Seq<char>| bus_seen(out@, b) <==> bus_seen(all.take(i), b),
        decreases rest.len(),
    {
        let g = rest.remove(0);
        proof {
            assert(g == all[i]);
            assert(rest@ =~= all.skip(i + 1));
            assert(all.take(i + 1).drop_last() =~= all.take(i));
            assert(all.take(i + 1).last() == g);
        }
        let mut seen = false;
        for k in 0..out.len()
            invariant
                seen <==> exists|j: int| 0 <= j < k && (#[trigger] out@[j]).bus_id@ == g.bus_id@,
        {
            if str_eq(out[k].bus_id.as_str(), g.bus_id.as_str()) {
                seen = true;
            }
        }
        let ghost prefix = all.take(i + 1);
        let ghost out0 = out@;
        proof {
            assert(seen == bus_seen(out@, g.bus_id@));
            assert forall|b: Seq<char>| bus_seen(prefix, b) <==> (bus_seen(all.take(i), b) || b
                == g.bus_id@) by {
                if bus_seen(prefix, b) {
                    let j = choose|j: int| 0 <= j < prefix.len() && (#[trigger] prefix[j]).bus_id@ == b;
                    if j < i {
                        assert(all.take(i)[j] == prefix[j]);
                    }
                }
                if bus_seen(all.take(i), b) {
                    let j = choose|j: int| 0 <= j < all.take(i).len() && (#[trigger] all.take(i)[j]).bus_id@ == b;
                    assert(prefix[j] == all.take(i)[j]);
                }
                if b == g.bus_id@ {
                    assert(prefix[i] == g);
                }
            }
        }
        if !seen {
            let ghost before = out@;
            out.push(g);
            proof {
                assert forall|b: Seq<char>| bus_seen(out@, b) <==> (bus_seen(before, b) || b == g.bus_id@) by {
                    if bus_seen(out@, b) {
                        let j = choose|j: int| 0 <= j < out@.len() && (#[trigger] out@[j]).bus_id@ == b;
                        if j < before.len() {
                            assert(before[j] == out@[j]);
                        }
                    }
                    if bus_seen(before, b) {
                        let j = choose|j: int| 0 <= j < before.len() && (#[trigger] before[j]).bus_id@ == b;
                        assert(out@[j] == before[j]);
                    }
                    if b == g.bus_id@ {
                        assert(out@[before.len() as int] == g);
                    }
                }
            }
        }
        proof {
            assert forall|b: Seq<char>| bus_seen(out@, b) <==> bus_seen(prefix, b) by {
                assert(bus_seen(out0, b) <==> bus_seen(all.take(i), b));
                assert(bus_seen(prefix, b) <==> (bus_seen(all.take(i), b) || b == g.bus_id@));
                if seen {
                    assert(out@ == out0);
                    if b == g.bus_id@ {
                        assert(bus_seen(out0, b));
                    }
                } else {
                    assert(bus_seen(out@, b) <==> (bus_seen(out0, b) || b == g.bus_id@));
                }
            }
            i = i + 1;
        }
    }
    assert(all.take(i) =~= all);
    out
}

/// The vendor named on a `/proc/cpuinfo` line `vendor_id : <name>`: the text
/// after `vendor_id`, trimmed, without leading `:`, trimmed again; `None`
/// when the line does not start so or the name is empty.
pub open spec fn vendor_line_value(line: Seq<char>) -> Option<Seq<char>> {
    if has_prefix(line, "vendor_id"@) {
        let v = trim(strip_prefix_all(trim(line.subrange(9, line.len() as int)), ":"@));
        if v.len() > 0 {
            Some(v)
        } else {
            None
        }
    } else {
        None
    }
}

/// End of the line that starts at `i`: the next `\n`, or the end of text.
pub open spec fn line_end(s: Seq<char>, i: int) -> int
    decreases s.len() - i,
{
    if i >= s.len() {
        s.len() as int
    } else if s[i] == '\n' {
        i
    } else {
        line_end(s, i + 1)
    }
}

/// The vendor named by the first `vendor_id` line at or after position `i`.
pub open spec fn cpuinfo_vendor_from(s: Seq<char>, i: int) -> Option<Seq<char>>
    decreases s.len() - i,
{
    if i < 0 || i > s.len() {
        None
    } else {
        let e = line_end(s, i);
        match vendor_line_value(s.subrange(i, e)) {
            Some(v) => Some(v),
            None => if e < s.len() && e >= i {
                cpuinfo_vendor_from(s, e + 1)
            } else {
                None
            },
        }
    }
}

proof fn lemma_line_end_bounds(s: Seq<char>, i: int)
    requires
        0 <= i <= s.len(),
    ensures
        i <= line_end(s, i) <= s.len(),
    decreases s.len() - i,
{
    if i < s.len() && s[i] != '\n' {
        lemma_line_end_bounds(s, i + 1);
    }
}

fn vendor_of_line(line: &str) -> (r: Option<String>)
    ensures
        (match r {
            Some(v) => vendor_line_value(line@) == Some(v@),
            None => vendor_line_value(line@) is None,
        }),
{
    proof {
        reveal_strlit("vendor_id");
        reveal_strlit(":");
    }
    if !starts_with(line, "vendor_id") {
        return None;
    }
    let n = line.unicode_len();
    let rest = line.substring_char(9, n);
    let v = trim_str(trim_start_matches(trim_str(rest), ":"));
    if v.unicode_len() > 0 {
        Some(String::from_str(v))
    } else {
        None
    }
}

/// The CPU vendor string named in the text of `/proc/cpuinfo`: the value of
/// the first `vendor_id` line with a non-empty value.
pub fn vendor_from_cpuinfo(text: &str) -> (r: Option<String>)
    ensures
        (match r {
            Some(v) => cpuinfo_vendor_from(text@, 0) == Some(v@),
            None => cpuinfo_vendor_from(text@, 0) is None,
        }),
{
    let c = chars_of(text);
    let n = c.len();
    let mut start: usize = 0;
    let mut i: usize = 0;
    while i <= n
        invariant
            n == text@.len(),
            c@ == text@,
            start <= i <= n,
            line_end(text@, start as int) == line_end(text@, i as int),
            cpuinfo_vendor_from(text@, 0) == cpuinfo_vendor_from(text@, start as int),
        decreases n + 1 - i,
    {
        if i == n || c[i] == '\n' {
            assert(line_end(text@, i as int) == i);
            let line = text.substring_char(start, i);
            match vendor_of_line(line) {
                Some(v) => {
                    return Some(v);
                },
                None => {},
            }
            if i == n {
                return None;
            }
            start = i + 1;
        } else {
            assert(line_end(text@, i as int) == line_end(text@, i + 1));
        }
        i = i + 1;
    }
    None
}

} // verus!
