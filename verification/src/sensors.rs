//! Kinds and units of OS-backed sensor readings.
//!
//! Readings are never invented; reading them happens at the edge of the
//! program.

use vstd::prelude::*;

use crate::text::{ascii_lower, contains_seq, lower_contains};

verus! {

/// What a sensor measures.
#[derive(Debug, Clone, Copy, PartialEq, Eq, Structural)]
pub enum SensorKind {
    Temperature,
    Power,
    Energy,
}

/// The unit of a sensor reading.
#[derive(Debug, Clone, Copy, PartialEq, Eq, Structural)]
pub enum SensorUnit {
    Celsius,
    Watts,
    Joules,
}

/// What the temperature selection reads of a sample: its kind, its name
/// (chip and label) and its source.
#[derive(Debug, Clone)]
pub struct SampleLabel {
    pub kind: SensorKind,
    pub name: String,
    pub source: String,
}

/// Model of a sample label.
pub open spec fn label_view(l: SampleLabel) -> (SensorKind, Seq<char>, Seq<char>) {
    (l.kind, l.name@, l.source@)
}

/// Models of sample labels.
pub open spec fn label_views(v: Seq<SampleLabel>) -> Seq<(SensorKind, Seq<char>, Seq<char>)> {
    v.map_values(|l: SampleLabel| label_view(l))
}

/// `p` occurs in `s` once `s` is lower-cased (ASCII).
pub open spec fn mentions(s: Seq<char>, p: Seq<char>) -> bool {
    contains_seq(ascii_lower(s), p)
}

/// The rules by which a temperature sample is picked.
#[derive(Debug, Clone, Copy, PartialEq, Eq, Structural)]
pub enum TempRule {
    /// Its name or source identifies a CPU sensor.
    CpuLabel,
    /// Any sample not from a GPU, an NVMe drive or an ACPI thermal zone.
    CpuFallback,
    /// Its source is the amdgpu driver.
    GpuSource,
}

/// Whether a sample's name and source satisfy a rule.
pub open spec fn rule_holds(rule: TempRule, name: Seq<char>, source: Seq<char>) -> bool {
    match rule {
        TempRule::CpuLabel => mentions(name, "tctl"@) || mentions(name, "tdie"@) || mentions(name, "package"@)
            || mentions(name, "k10temp"@) || mentions(source, "k10temp"@) || mentions(source, "zenpower"@)
            || mentions(source, "coretemp"@) || mentions(name, "cpu"@),
        TempRule::CpuFallback => !mentions(source, "amdgpu"@) && !mentions(source, "nvme"@) && !mentions(
            source,
            "acpitz"@,
        ),
        TempRule::GpuSource => mentions(source, "amdgpu"@),
    }
}

/// The index of the first temperature sample satisfying `rule`.
pub open spec fn first_match(s: Seq<(SensorKind, Seq<char>, Seq<char>)>, rule: TempRule) -> Option<int>
    decreases s.len(),
{
    if s.len() == 0 {
        None
    } else {
        match first_match(s.drop_last(), rule) {
            Some(i) => Some(i),
            None => if s.last().0 == SensorKind::Temperature && rule_holds(rule, s.last().1, s.last().2) {
                Some(s.len() - 1)
            } else {
                None
            },
        }
    }
}

/// The CPU temperature sample: the first with a CPU label, else the first
/// that passes the fallback.
pub open spec fn cpu_pick(s: Seq<(SensorKind, Seq<char>, Seq<char>)>) -> Option<int> {
    match first_match(s, TempRule::CpuLabel) {
        Some(i) => Some(i),
        None => first_match(s, TempRule::CpuFallback),
    }
}

/// An index as an integer.
pub open spec fn opt_index(o: Option<usize>) -> Option<int> {
    match o {
        Some(i) => Some(i as int),
        None => None,
    }
}

fn holds(rule: TempRule, l: &SampleLabel) -> (b: bool)
    ensures
        b == rule_holds(rule, l.name@, l.source@),
{
    let name = l.name.as_str();
    let source = l.source.as_str();
    match rule {
        TempRule::CpuLabel => lower_contains(name, "tctl") || lower_contains(name, "tdie") || lower_contains(
            name,
            "package",
        ) || lower_contains(name, "k10temp") || lower_contains(source, "k10temp") || lower_contains(
            source,
            "zenpower",
        ) || lower_contains(source, "coretemp") || lower_contains(name, "cpu"),
        TempRule::CpuFallback => !lower_contains(source, "amdgpu") && !lower_contains(source, "nvme")
            && !lower_contains(source, "acpitz"),
        TempRule::GpuSource => lower_contains(source, "amdgpu"),
    }
}

proof fn lemma_first_match_prefix(s: Seq<(SensorKind, Seq<char>, Seq<char>)>, rule: TempRule, k: int)
    requires
        0 <= k <= s.len(),
        first_match(s.take(k), rule) is Some,
    ensures
        first_match(s, rule) == first_match(s.take(k), rule),
    decreases s.len() - k,
{
    if k == s.len() {
        assert(s.take(k) =~= s);
    } else {
        assert(s.take(k + 1).drop_last() =~= s.take(k));
        lemma_first_match_prefix(s, rule, k + 1);
    }
}

/// The index of the first temperature sample satisfying `rule`.
pub fn find_first(samples: &Vec<SampleLabel>, rule: TempRule) -> (r: Option<usize>)
    ensures
        opt_index(r) == first_match(label_views(samples@), rule),
        r matches Some(i) ==> i < samples@.len(),
{
    let ghost s = label_views(samples@);
    let n = samples.len();
    let mut i: usize = 0;
    while i < n
        invariant
            n == samples@.len(),
            s == label_views(samples@),
            i <= n,
            first_match(s.take(i as int), rule) is None,
        decreases n - i,
    {
        proof {
            assert(s.take(i + 1).drop_last() =~= s.take(i as int));
            assert(s.take(i + 1).last() == label_view(samples@[i as int]));
        }
        let is_temp = match samples[i].kind {
            SensorKind::Temperature => true,
            _ => false,
        };
        if is_temp && holds(rule, &samples[i]) {
            proof {
                lemma_first_match_prefix(s, rule, i + 1);
            }
            return Some(i);
        }
        i = i + 1;
    }
    proof {
        assert(s.take(n as int) =~= s);
    }
    None
}

/// Which samples report the CPU and the GPU temperature, by index: the CPU
/// one is the first temperature sample with a CPU label, else the first one
/// not from a GPU, an NVMe drive or an ACPI zone; the GPU one is the first
/// temperature sample from the amdgpu driver.
pub fn pick_temperatures(samples: &Vec<SampleLabel>) -> (r: (Option<usize>, Option<usize>))
    ensures
        opt_index(r.0) == cpu_pick(label_views(samples@)),
        opt_index(r.1) == first_match(label_views(samples@), TempRule::GpuSource),
{
    let cpu = match find_first(samples, TempRule::CpuLabel) {
        Some(i) => Some(i),
        None => find_first(samples, TempRule::CpuFallback),
    };
    (cpu, find_first(samples, TempRule::GpuSource))
}

} // verus!
