//! Eligibility types for the AMD-only hardware policy.

use vstd::prelude::*;

use crate::text::{ascii_lower, contains_seq, eq_ignore_ascii_case, join, occurs_at, trim, trim_str};

verus! {

/// Persisted policy identifier for experiment records and fingerprints.
pub const HARDWARE_POLICY: &'static str = "amd-only-v1";

/// CPU architecture families the detector distinguishes.
#[derive(Debug, Clone, Copy, PartialEq, Eq, Structural)]
pub enum Architecture {
    X86,
    X86_64,
    Arm,
    Arm64,
    Riscv,
    Other,
}

impl Architecture {
    /// The stable lower-case name of the architecture.
    pub open spec fn name(self) -> Seq<char> {
        match self {
            Architecture::X86 => "x86"@,
            Architecture::X86_64 => "x86_64"@,
            Architecture::Arm => "arm"@,
            Architecture::Arm64 => "aarch64"@,
            Architecture::Riscv => "riscv"@,
            Architecture::Other => "other"@,
        }
    }

    /// Only the x86 family is supported.
    pub open spec fn supported(self) -> bool {
        self is X86 || self is X86_64
    }

    pub fn as_str(self) -> (s: &'static str)
        ensures
            s@ == self.name(),
    {
        match self {
            Architecture::X86 => "x86",
            Architecture::X86_64 => "x86_64",
            Architecture::Arm => "arm",
            Architecture::Arm64 => "aarch64",
            Architecture::Riscv => "riscv",
            Architecture::Other => "other",
        }
    }

    pub fn is_supported(self) -> (b: bool)
        ensures
            b == self.supported(),
    {
        match self {
            Architecture::X86 | Architecture::X86_64 => true,
            _ => false,
        }
    }
}

/// CPU vendors the policy distinguishes.
#[derive(Debug, Clone, Copy, PartialEq, Eq, Structural)]
pub enum CpuVendor {
    Amd,
    Intel,
    Unknown,
}

/// The vendor named by a CPUID vendor string (after trimming, ignoring ASCII case).
pub open spec fn cpu_vendor_of(s: Seq<char>) -> CpuVendor {
    let t = ascii_lower(trim(s));
    if t == ascii_lower("AuthenticAMD"@) || t == ascii_lower("AMD"@) {
        CpuVendor::Amd
    } else if t == ascii_lower("GenuineIntel"@) || t == ascii_lower("Intel"@) {
        CpuVendor::Intel
    } else {
        CpuVendor::Unknown
    }
}

impl CpuVendor {
    pub open spec fn name(self) -> Seq<char> {
        match self {
            CpuVendor::Amd => "amd"@,
            CpuVendor::Intel => "intel"@,
            CpuVendor::Unknown => "unknown"@,
        }
    }

    pub fn as_str(self) -> (s: &'static str)
        ensures
            s@ == self.name(),
    {
        match self {
            CpuVendor::Amd => "amd",
            CpuVendor::Intel => "intel",
            CpuVendor::Unknown => "unknown",
        }
    }

    /// Classify a CPUID vendor string such as `AuthenticAMD` or `GenuineIntel`.
    pub fn from_cpuid_string(s: &str) -> (v: CpuVendor)
        ensures
            v == cpu_vendor_of(s@),
    {
        let t = trim_str(s);
        if eq_ignore_ascii_case(t, "AuthenticAMD") || eq_ignore_ascii_case(t, "AMD") {
            CpuVendor::Amd
        } else if eq_ignore_ascii_case(t, "GenuineIntel") || eq_ignore_ascii_case(t, "Intel") {
            CpuVendor::Intel
        } else {
            CpuVendor::Unknown
        }
    }
}

/// GPU vendors, ordered as the policy lists them (AMD first).
#[derive(Debug, Clone, Copy, PartialEq, Eq, PartialOrd, Ord, Hash, Structural)]
pub enum GpuVendor {
    Amd,
    Nvidia,
    Intel,
    Unknown,
}

/// The vendor behind a PCI vendor id.
pub open spec fn gpu_vendor_of_pci(id: u16) -> GpuVendor {
    if id == 0x1002 {
        GpuVendor::Amd
    } else if id == 0x10DE {
        GpuVendor::Nvidia
    } else if id == 0x8086 {
        GpuVendor::Intel
    } else {
        GpuVendor::Unknown
    }
}

impl GpuVendor {
    pub open spec fn name(self) -> Seq<char> {
        match self {
            GpuVendor::Amd => "amd"@,
            GpuVendor::Nvidia => "nvidia"@,
            GpuVendor::Intel => "intel"@,
            GpuVendor::Unknown => "unknown"@,
        }
    }

    pub fn as_str(self) -> (s: &'static str)
        ensures
            s@ == self.name(),
    {
        match self {
            GpuVendor::Amd => "amd",
            GpuVendor::Nvidia => "nvidia",
            GpuVendor::Intel => "intel",
            GpuVendor::Unknown => "unknown",
        }
    }

    /// Map PCI vendor ID to vendor: 0x1002 AMD/ATI, 0x10DE NVIDIA, 0x8086 Intel.
    pub fn from_pci_vendor_id(id: u16) -> (v: GpuVendor)
        ensures
            v == gpu_vendor_of_pci(id),
    {
        match id {
            0x1002 => GpuVendor::Amd,
            0x10DE => GpuVendor::Nvidia,
            0x8086 => GpuVendor::Intel,
            _ => GpuVendor::Unknown,
        }
    }
}

/// Overall verdict of an eligibility evaluation.
#[derive(Debug, Clone, Copy, PartialEq, Eq, Structural)]
pub enum CompatibilityStatus {
    Supported,
    Blocked,
}

impl CompatibilityStatus {
    pub open spec fn name(self) -> Seq<char> {
        match self {
            CompatibilityStatus::Supported => "SUPPORTED"@,
            CompatibilityStatus::Blocked => "BLOCKED"@,
        }
    }

    pub fn as_str(self) -> (s: &'static str)
        ensures
            s@ == self.name(),
    {
        match self {
            CompatibilityStatus::Supported => "SUPPORTED",
            CompatibilityStatus::Blocked => "BLOCKED",
        }
    }
}


/// Why hardware was rejected under `amd-only-v1`.
#[derive(Debug, Clone, PartialEq, Eq)]
pub enum HardwareRejection {
    UnsupportedArchitecture { arch: String },
    IntelCpuDetected,
    NvidiaGpuDetected { detail: String },
    IntelGpuDetected { detail: String },
    UnknownCpuVendor { raw: String },
    UnsupportedGpuVendor { detail: String },
    MixedGpuVendors { detail: String },
    UnsupportedHardwareCombination { detail: String },
}

/// Mathematical model of a [`HardwareRejection`]: its text fields as character sequences.
pub enum Rejection {
    UnsupportedArchitecture { arch: Seq<char> },
    IntelCpuDetected,
    NvidiaGpuDetected { detail: Seq<char> },
    IntelGpuDetected { detail: Seq<char> },
    UnknownCpuVendor { raw: Seq<char> },
    UnsupportedGpuVendor { detail: Seq<char> },
    MixedGpuVendors { detail: Seq<char> },
    UnsupportedHardwareCombination { detail: Seq<char> },
}

impl View for HardwareRejection {
    type V = Rejection;

    open spec fn view(&self) -> Rejection {
        match self {
            HardwareRejection::UnsupportedArchitecture { arch } => Rejection::UnsupportedArchitecture {
                arch: arch@,
            },
            HardwareRejection::IntelCpuDetected => Rejection::IntelCpuDetected,
            HardwareRejection::NvidiaGpuDetected { detail } => Rejection::NvidiaGpuDetected {
                detail: detail@,
            },
            HardwareRejection::IntelGpuDetected { detail } => Rejection::IntelGpuDetected {
                detail: detail@,
            },
            HardwareRejection::UnknownCpuVendor { raw } => Rejection::UnknownCpuVendor { raw: raw@ },
            HardwareRejection::UnsupportedGpuVendor { detail } => Rejection::UnsupportedGpuVendor {
                detail: detail@,
            },
            HardwareRejection::MixedGpuVendors { detail } => Rejection::MixedGpuVendors {
                detail: detail@,
            },
            HardwareRejection::UnsupportedHardwareCombination { detail } =>
                Rejection::UnsupportedHardwareCombination { detail: detail@ },
        }
    }
}

impl Rejection {
    /// The user-facing explanation of a rejection.
    pub open spec fn message(self) -> Seq<char> {
        match self {
            Rejection::UnsupportedArchitecture { arch } => "Unsupported CPU architecture '"@ + arch
                + "'. Kraftverk requires x86 or x86_64."@,
            Rejection::IntelCpuDetected =>
                "Intel CPU detected. Kraftverk is an AMD-exclusive performance platform (policy amd-only-v1)."@,
            Rejection::NvidiaGpuDetected { detail } => "NVIDIA GPU detected ("@ + detail
                + "). Kraftverk does not support NVIDIA GPUs (policy amd-only-v1). Mixed AMD+NVIDIA configurations are blocked."@,
            Rejection::IntelGpuDetected { detail } => "Intel GPU detected ("@ + detail
                + "). Kraftverk does not support Intel GPUs (policy amd-only-v1)."@,
            Rejection::UnknownCpuVendor { raw } => "Unknown CPU vendor '"@ + raw
                + "'. Kraftverk requires an AMD CPU (AuthenticAMD) under policy amd-only-v1."@,
            Rejection::UnsupportedGpuVendor { detail } => "Unsupported GPU vendor ("@ + detail
                + "). When a GPU is present, only AMD (PCI 0x1002) is allowed."@,
            Rejection::MixedGpuVendors { detail } => "Mixed GPU vendors are not supported ("@
                + detail + "). All detected GPUs must be AMD."@,
            Rejection::UnsupportedHardwareCombination { detail } =>
                "Unsupported hardware combination: "@ + detail,
        }
    }
}

impl Rejection {
    /// The text a rejection carries: the architecture, the detail or the raw
    /// vendor string (nothing for an Intel CPU).
    pub open spec fn payload(self) -> Seq<char> {
        match self {
            Rejection::UnsupportedArchitecture { arch } => arch,
            Rejection::IntelCpuDetected => Seq::empty(),
            Rejection::NvidiaGpuDetected { detail } => detail,
            Rejection::IntelGpuDetected { detail } => detail,
            Rejection::UnknownCpuVendor { raw } => raw,
            Rejection::UnsupportedGpuVendor { detail } => detail,
            Rejection::MixedGpuVendors { detail } => detail,
            Rejection::UnsupportedHardwareCombination { detail } => detail,
        }
    }

    /// The text in front of the payload in the message.
    pub open spec fn message_prefix(self) -> Seq<char> {
        match self {
            Rejection::UnsupportedArchitecture { .. } => "Unsupported CPU architecture '"@,
            Rejection::IntelCpuDetected =>
                "Intel CPU detected. Kraftverk is an AMD-exclusive performance platform (policy amd-only-v1)."@,
            Rejection::NvidiaGpuDetected { .. } => "NVIDIA GPU detected ("@,
            Rejection::IntelGpuDetected { .. } => "Intel GPU detected ("@,
            Rejection::UnknownCpuVendor { .. } => "Unknown CPU vendor '"@,
            Rejection::UnsupportedGpuVendor { .. } => "Unsupported GPU vendor ("@,
            Rejection::MixedGpuVendors { .. } => "Mixed GPU vendors are not supported ("@,
            Rejection::UnsupportedHardwareCombination { .. } => "Unsupported hardware combination: "@,
        }
    }

    /// The text after the payload in the message.
    pub open spec fn message_suffix(self) -> Seq<char> {
        match self {
            Rejection::UnsupportedArchitecture { .. } => "'. Kraftverk requires x86 or x86_64."@,
            Rejection::IntelCpuDetected => Seq::empty(),
            Rejection::NvidiaGpuDetected { .. } =>
                "). Kraftverk does not support NVIDIA GPUs (policy amd-only-v1). Mixed AMD+NVIDIA configurations are blocked."@,
            Rejection::IntelGpuDetected { .. } => "). Kraftverk does not support Intel GPUs (policy amd-only-v1)."@,
            Rejection::UnknownCpuVendor { .. } =>
                "'. Kraftverk requires an AMD CPU (AuthenticAMD) under policy amd-only-v1."@,
            Rejection::UnsupportedGpuVendor { .. } =>
                "). When a GPU is present, only AMD (PCI 0x1002) is allowed."@,
            Rejection::MixedGpuVendors { .. } => "). All detected GPUs must be AMD."@,
            Rejection::UnsupportedHardwareCombination { .. } => Seq::empty(),
        }
    }

    /// Characters of the prefix that tell the kinds of rejection apart.
    pub open spec fn kind_marks(self) -> (char, char, char, char) {
        let p = self.message_prefix();
        (p[0], p[2], p[6], p[12])
    }
}

proof fn lemma_message_parts(r: Rejection)
    ensures
        r.message() == r.message_prefix() + r.payload() + r.message_suffix(),
        r.message_prefix().len() > 12,
        r.kind_marks() == match r {
            Rejection::UnsupportedArchitecture { .. } => ('U', 's', 'o', 'C'),
            Rejection::IntelCpuDetected => ('I', 't', 'C', 't'),
            Rejection::NvidiaGpuDetected { .. } => ('N', 'I', ' ', 'e'),
            Rejection::IntelGpuDetected { .. } => ('I', 't', 'G', 't'),
            Rejection::UnknownCpuVendor { .. } => ('U', 'k', 'n', 'v'),
            Rejection::UnsupportedGpuVendor { .. } => ('U', 's', 'o', 'G'),
            Rejection::MixedGpuVendors { .. } => ('M', 'x', 'G', 'n'),
            Rejection::UnsupportedHardwareCombination { .. } => ('U', 's', 'o', 'h'),
        },
{
    reveal_strlit("Unsupported CPU architecture '");
    reveal_strlit("Intel CPU detected. Kraftverk is an AMD-exclusive performance platform (policy amd-only-v1).");
    reveal_strlit("NVIDIA GPU detected (");
    reveal_strlit("Intel GPU detected (");
    reveal_strlit("Unknown CPU vendor '");
    reveal_strlit("Unsupported GPU vendor (");
    reveal_strlit("Mixed GPU vendors are not supported (");
    reveal_strlit("Unsupported hardware combination: ");
    match r {
        Rejection::IntelCpuDetected => {
            assert(r.message() =~= r.message_prefix() + r.payload() + r.message_suffix());
        },
        Rejection::UnsupportedHardwareCombination { detail } => {
            assert(r.message() =~= r.message_prefix() + r.payload() + r.message_suffix());
        },
        _ => {},
    }
}

/// Law: a rejection message names its rejection. Two rejections with the
/// same message are the same rejection, and each message contains the text
/// the rejection carries (its architecture, detail or raw vendor string).
pub proof fn lemma_message_identifies_rejection(r1: Rejection, r2: Rejection)
    ensures
        r1.message() == r2.message() ==> r1 == r2,
        contains_seq(r1.message(), r1.payload()),
{
    lemma_message_parts(r1);
    lemma_message_parts(r2);
    let m1 = r1.message();
    let p1 = r1.message_prefix();
    assert(occurs_at(m1, r1.payload(), p1.len() as int)) by {
        assert(m1.subrange(p1.len() as int, (p1.len() + r1.payload().len()) as int) =~= r1.payload());
    }
    if m1 == r2.message() {
        assert(m1[0] == p1[0] && m1[2] == p1[2] && m1[6] == p1[6] && m1[12] == p1[12]);
        let p2 = r2.message_prefix();
        assert(m1[0] == p2[0] && m1[2] == p2[2] && m1[6] == p2[6] && m1[12] == p2[12]);
        assert(r1.kind_marks() == r2.kind_marks());
        let a = r1.payload();
        let b = r2.payload();
        assert(p1 == p2);
        assert(r1.message_suffix() == r2.message_suffix());
        assert(a.len() == b.len());
        assert(a =~= m1.subrange(p1.len() as int, (p1.len() + a.len()) as int));
        assert(b =~= m1.subrange(p1.len() as int, (p1.len() + b.len()) as int));
        match r1 {
            Rejection::UnsupportedArchitecture { .. } => {},
            Rejection::IntelCpuDetected => {},
            Rejection::NvidiaGpuDetected { .. } => {},
            Rejection::IntelGpuDetected { .. } => {},
            Rejection::UnknownCpuVendor { .. } => {},
            Rejection::UnsupportedGpuVendor { .. } => {},
            Rejection::MixedGpuVendors { .. } => {},
            Rejection::UnsupportedHardwareCombination { .. } => {},
        }
    }
}

/// Models of a sequence of rejections.
pub open spec fn rejection_views(v: Seq<HardwareRejection>) -> Seq<Rejection> {
    v.map_values(|r: HardwareRejection| r@)
}

/// `prefix + middle + suffix` as an owned string.
fn framed(prefix: &str, middle: &str, suffix: &str) -> (r: String)
    ensures
        r@ == prefix@ + middle@ + suffix@,
{
    let mut s = String::from_str(prefix);
    s.append(middle);
    s.append(suffix);
    s
}

impl HardwareRejection {
    /// A copy with the same model.
    pub fn duplicate(&self) -> (r: HardwareRejection)
        ensures
            r@ == self@,
    {
        match self {
            HardwareRejection::UnsupportedArchitecture { arch } =>
                HardwareRejection::UnsupportedArchitecture { arch: arch.clone() },
            HardwareRejection::IntelCpuDetected => HardwareRejection::IntelCpuDetected,
            HardwareRejection::NvidiaGpuDetected { detail } =>
                HardwareRejection::NvidiaGpuDetected { detail: detail.clone() },
            HardwareRejection::IntelGpuDetected { detail } =>
                HardwareRejection::IntelGpuDetected { detail: detail.clone() },
            HardwareRejection::UnknownCpuVendor { raw } => HardwareRejection::UnknownCpuVendor {
                raw: raw.clone(),
            },
            HardwareRejection::UnsupportedGpuVendor { detail } =>
                HardwareRejection::UnsupportedGpuVendor { detail: detail.clone() },
            HardwareRejection::MixedGpuVendors { detail } => HardwareRejection::MixedGpuVendors {
                detail: detail.clone(),
            },
            HardwareRejection::UnsupportedHardwareCombination { detail } =>
                HardwareRejection::UnsupportedHardwareCombination { detail: detail.clone() },
        }
    }

    /// The user-facing explanation of this rejection.
    pub fn message(&self) -> (m: String)
        ensures
            m@ == self@.message(),
    {
        match self {
            HardwareRejection::UnsupportedArchitecture { arch } => framed(
                "Unsupported CPU architecture '",
                arch.as_str(),
                "'. Kraftverk requires x86 or x86_64.",
            ),
            HardwareRejection::IntelCpuDetected => String::from_str(
                "Intel CPU detected. Kraftverk is an AMD-exclusive performance platform (policy amd-only-v1).",
            ),
            HardwareRejection::NvidiaGpuDetected { detail } => framed(
                "NVIDIA GPU detected (",
                detail.as_str(),
                "). Kraftverk does not support NVIDIA GPUs (policy amd-only-v1). Mixed AMD+NVIDIA configurations are blocked.",
            ),
            HardwareRejection::IntelGpuDetected { detail } => framed(
                "Intel GPU detected (",
                detail.as_str(),
                "). Kraftverk does not support Intel GPUs (policy amd-only-v1).",
            ),
            HardwareRejection::UnknownCpuVendor { raw } => framed(
                "Unknown CPU vendor '",
                raw.as_str(),
                "'. Kraftverk requires an AMD CPU (AuthenticAMD) under policy amd-only-v1.",
            ),
            HardwareRejection::UnsupportedGpuVendor { detail } => framed(
                "Unsupported GPU vendor (",
                detail.as_str(),
                "). When a GPU is present, only AMD (PCI 0x1002) is allowed.",
            ),
            HardwareRejection::MixedGpuVendors { detail } => framed(
                "Mixed GPU vendors are not supported (",
                detail.as_str(),
                "). All detected GPUs must be AMD.",
            ),
            HardwareRejection::UnsupportedHardwareCombination { detail } => {
                let mut s = String::from_str("Unsupported hardware combination: ");
                s.append(detail.as_str());
                s
            },
        }
    }
}

/// Result of evaluating hardware facts against the policy.
#[derive(Debug, Clone)]
pub struct HardwareEligibility {
    pub policy: String,
    pub architecture: Architecture,
    pub cpu_vendor: CpuVendor,
    pub cpu_vendor_raw: String,
    pub gpu_vendors: Vec<GpuVendor>,
    pub gpu_details: Vec<String>,
    pub supported: bool,
    pub compatibility: CompatibilityStatus,
    pub rejection_reasons: Vec<HardwareRejection>,
}

/// The `,`-joined vendor names, or `none` when no GPU is present.
pub open spec fn gpu_list_text(gpus: Seq<GpuVendor>) -> Seq<char> {
    if gpus.len() == 0 {
        "none"@
    } else {
        join(gpus.map_values(|g: GpuVendor| g.name()), ","@)
    }
}

/// One-line text of an eligibility result.
pub open spec fn summary_text(
    supported: bool,
    policy: Seq<char>,
    arch: Architecture,
    cpu: CpuVendor,
    gpus: Seq<GpuVendor>,
    reasons: Seq<Rejection>,
) -> Seq<char> {
    if supported {
        "SUPPORTED under "@ + policy + " \u{2014} arch="@ + arch.name() + " cpu="@ + cpu.name()
            + " gpus="@ + gpu_list_text(gpus)
    } else {
        "BLOCKED under "@ + policy + ": "@ + join(
            reasons.map_values(|r: Rejection| r.message()),
            "; "@,
        )
    }
}

/// Join the names of GPU vendors with `sep`.
pub fn join_gpu_names(gpus: &Vec<GpuVendor>, sep: &str) -> (r: String)
    ensures
        r@ == join(gpus@.map_values(|g: GpuVendor| g.name()), sep@),
{
    let mut res = String::new();
    let n = gpus.len();
    let ghost names = gpus@.map_values(|g: GpuVendor| g.name());
    for i in 0..n
        invariant
            n == gpus@.len(),
            names == gpus@.map_values(|g: GpuVendor| g.name()),
            res@ == join(names.take(i as int), sep@),
    {
        let ghost before = names.take(i as int);
        if i != 0 {
            res.append(sep);
        }
        res.append(gpus[i].as_str());
        proof {
            let now = names.take(i + 1);
            assert(now.drop_last() =~= before);
            if i == 0 {
                assert(res@ =~= now[0]);
            }
        }
    }
    assert(names.take(n as int) =~= names);
    res
}

/// Join the messages of rejections with `sep`.
pub fn join_messages(reasons: &Vec<HardwareRejection>, sep: &str) -> (r: String)
    ensures
        r@ == join(rejection_views(reasons@).map_values(|x: Rejection| x.message()), sep@),
{
    let mut res = String::new();
    let n = reasons.len();
    let ghost msgs = rejection_views(reasons@).map_values(|x: Rejection| x.message());
    for i in 0..n
        invariant
            n == reasons@.len(),
            msgs == rejection_views(reasons@).map_values(|x: Rejection| x.message()),
            res@ == join(msgs.take(i as int), sep@),
    {
        let ghost before = msgs.take(i as int);
        if i != 0 {
            res.append(sep);
        }
        let m = reasons[i].message();
        res.append(m.as_str());
        proof {
            let now = msgs.take(i + 1);
            assert(now.drop_last() =~= before);
            if i == 0 {
                assert(res@ =~= now[0]);
            }
        }
    }
    assert(msgs.take(n as int) =~= msgs);
    res
}

/// Two eligibility results agree field by field, strings and lists by content.
pub open spec fn same_eligibility(a: HardwareEligibility, b: HardwareEligibility) -> bool {
    &&& a.policy@ == b.policy@
    &&& a.architecture == b.architecture
    &&& a.cpu_vendor == b.cpu_vendor
    &&& a.cpu_vendor_raw@ == b.cpu_vendor_raw@
    &&& a.gpu_vendors@ == b.gpu_vendors@
    &&& a.gpu_details@.map_values(|s: String| s@) == b.gpu_details@.map_values(|s: String| s@)
    &&& a.supported == b.supported
    &&& a.compatibility == b.compatibility
    &&& rejection_views(a.rejection_reasons@) == rejection_views(b.rejection_reasons@)
}

impl HardwareEligibility {
    /// A copy that agrees with this result field by field.
    pub fn duplicate(&self) -> (r: HardwareEligibility)
        ensures
            same_eligibility(r, *self),
    {
        let mut gpus: Vec<GpuVendor> = Vec::new();
        for i in 0..self.gpu_vendors.len()
            invariant
                gpus@ == self.gpu_vendors@.take(i as int),
        {
            gpus.push(self.gpu_vendors[i]);
            assert(gpus@ =~= self.gpu_vendors@.take(i + 1));
        }
        assert(self.gpu_vendors@.take(self.gpu_vendors@.len() as int) =~= self.gpu_vendors@);
        let mut details: Vec<String> = Vec::new();
        for i in 0..self.gpu_details.len()
            invariant
                details@.map_values(|s: String| s@) == self.gpu_details@.take(i as int).map_values(
                    |s: String| s@,
                ),
        {
            let d = self.gpu_details[i].clone();
            let ghost before = details@;
            details.push(d);
            proof {
                assert(details@.map_values(|s: String| s@) =~= before.map_values(|s: String| s@).push(
                    d@,
                ));
                assert(self.gpu_details@.take(i + 1).map_values(|s: String| s@)
                    =~= self.gpu_details@.take(i as int).map_values(|s: String| s@).push(
                    self.gpu_details@[i as int]@,
                ));
            }
        }
        assert(self.gpu_details@.take(self.gpu_details@.len() as int) =~= self.gpu_details@);
        let mut reasons: Vec<HardwareRejection> = Vec::new();
        for i in 0..self.rejection_reasons.len()
            invariant
                rejection_views(reasons@) == rejection_views(self.rejection_reasons@.take(i as int)),
        {
            let r = self.rejection_reasons[i].duplicate();
            let ghost before = reasons@;
            reasons.push(r);
            proof {
                assert(rejection_views(reasons@) =~= rejection_views(before).push(r@));
                assert(rejection_views(self.rejection_reasons@.take(i + 1)) =~= rejection_views(
                    self.rejection_reasons@.take(i as int),
                ).push(self.rejection_reasons@[i as int]@));
            }
        }
        assert(self.rejection_reasons@.take(self.rejection_reasons@.len() as int)
            =~= self.rejection_reasons@);
        HardwareEligibility {
            policy: self.policy.clone(),
            architecture: self.architecture,
            cpu_vendor: self.cpu_vendor,
            cpu_vendor_raw: self.cpu_vendor_raw.clone(),
            gpu_vendors: gpus,
            gpu_details: details,
            supported: self.supported,
            compatibility: self.compatibility,
            rejection_reasons: reasons,
        }
    }

    /// The first rejection reason, which decides the exit code.
    pub fn primary_rejection(&self) -> (r: Option<&HardwareRejection>)
        ensures
            self.rejection_reasons@.len() == 0 ==> r is None,
            self.rejection_reasons@.len() > 0 ==> r == Some(&self.rejection_reasons@[0]),
    {
        if self.rejection_reasons.len() == 0 {
            None
        } else {
            Some(&self.rejection_reasons[0])
        }
    }

    /// One-line text: the supported configuration, or every rejection message.
    pub fn summary(&self) -> (s: String)
        ensures
            s@ == summary_text(
                self.supported,
                self.policy@,
                self.architecture,
                self.cpu_vendor,
                self.gpu_vendors@,
                rejection_views(self.rejection_reasons@),
            ),
    {
        if self.supported {
            let mut s = String::from_str("SUPPORTED under ");
            s.append(self.policy.as_str());
            s.append(" \u{2014} arch=");
            s.append(self.architecture.as_str());
            s.append(" cpu=");
            s.append(self.cpu_vendor.as_str());
            s.append(" gpus=");
            if self.gpu_vendors.len() == 0 {
                s.append("none");
            } else {
                let g = join_gpu_names(&self.gpu_vendors, ",");
                s.append(g.as_str());
            }
            s
        } else {
            let mut s = String::from_str("BLOCKED under ");
            s.append(self.policy.as_str());
            s.append(": ");
            let r = join_messages(&self.rejection_reasons, "; ");
            s.append(r.as_str());
            s
        }
    }
}

} // verus!
