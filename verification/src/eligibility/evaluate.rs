//! Pure eligibility evaluation (testable without live hardware).

use vstd::prelude::*;

use crate::eligibility::types::{
    Architecture, CompatibilityStatus, CpuVendor, GpuVendor, HardwareEligibility,
    HardwareRejection, Rejection, rejection_views, HARDWARE_POLICY,
};
use crate::eligibility::detect::{collect_hardware_facts, detected, DetectedGpu};
use crate::eligibility::exit_codes::{exit_code_of, ExitCode};
use crate::text::{join, join_strings, views};

verus! {

/// Observable hardware facts used by the eligibility engine.
#[derive(Debug, Clone)]
pub struct HardwareFacts {
    pub architecture: Architecture,
    pub cpu_vendor: CpuVendor,
    pub cpu_vendor_raw: String,
    /// Distinct GPU vendors present. Empty means no GPU detected.
    pub gpu_vendors: Vec<GpuVendor>,
    pub gpu_details: Vec<String>,
}

/// The distinct vendors present, in vendor order (the order of a `BTreeSet`).
pub open spec fn distinct_vendors(gpus: Seq<GpuVendor>) -> Seq<GpuVendor> {
    (if gpus.contains(GpuVendor::Amd) { seq![GpuVendor::Amd] } else { Seq::empty() })
        + (if gpus.contains(GpuVendor::Nvidia) { seq![GpuVendor::Nvidia] } else { Seq::empty() })
        + (if gpus.contains(GpuVendor::Intel) { seq![GpuVendor::Intel] } else { Seq::empty() })
        + (if gpus.contains(GpuVendor::Unknown) { seq![GpuVendor::Unknown] } else { Seq::empty() })
}

/// `{:?}` of a list of vendor names, e.g. `["amd", "nvidia"]`.
pub open spec fn debug_names(v: Seq<GpuVendor>) -> Seq<char> {
    "["@ + join(v.map_values(|g: GpuVendor| "\""@ + g.name() + "\""@), ", "@) + "]"@
}

/// Reasons contributed by the detected GPUs, in the order they are checked.
pub open spec fn gpu_reasons(gpus: Seq<GpuVendor>, details: Seq<Seq<char>>) -> Seq<Rejection> {
    let d = join(details, "; "@);
    let amd = gpus.contains(GpuVendor::Amd);
    let nv = gpus.contains(GpuVendor::Nvidia);
    let intel = gpus.contains(GpuVendor::Intel);
    let unk = gpus.contains(GpuVendor::Unknown);
    let distinct = distinct_vendors(gpus);
    if gpus.len() == 0 {
        Seq::empty()
    } else {
        (if nv { seq![Rejection::NvidiaGpuDetected { detail: d }] } else { Seq::empty() }) + (if intel {
            seq![Rejection::IntelGpuDetected { detail: d }]
        } else {
            Seq::empty()
        }) + (if unk {
            seq![
                Rejection::UnsupportedGpuVendor {
                    detail: "unknown PCI/vendor among: "@ + d,
                },
            ]
        } else {
            Seq::empty()
        }) + (if distinct.len() > 1 {
            seq![
                Rejection::MixedGpuVendors {
                    detail: "vendors="@ + debug_names(distinct) + " details="@ + d,
                },
            ]
        } else {
            Seq::empty()
        }) + (if amd && (nv || intel || unk) {
            seq![
                Rejection::UnsupportedHardwareCombination {
                    detail: "AMD GPU mixed with non-AMD GPU(s)"@,
                },
            ]
        } else {
            Seq::empty()
        }) + (if !amd && !nv && !intel && !unk {
            seq![Rejection::UnsupportedGpuVendor { detail: d }]
        } else {
            Seq::empty()
        })
    }
}

/// Every rejection the policy raises for the facts, before de-duplication.
pub open spec fn policy_reasons(
    arch: Architecture,
    cpu: CpuVendor,
    raw: Seq<char>,
    gpus: Seq<GpuVendor>,
    details: Seq<Seq<char>>,
) -> Seq<Rejection> {
    (if !arch.supported() {
        seq![Rejection::UnsupportedArchitecture { arch: arch.name() }]
    } else {
        Seq::empty()
    }) + (match cpu {
        CpuVendor::Amd => Seq::empty(),
        CpuVendor::Intel => seq![Rejection::IntelCpuDetected],
        CpuVendor::Unknown => seq![Rejection::UnknownCpuVendor { raw }],
    }) + gpu_reasons(gpus, details)
}

/// Keep the first rejection of each distinct message, preserving order.
pub open spec fn dedup_by_message(s: Seq<Rejection>) -> Seq<Rejection>
    decreases s.len(),
{
    if s.len() == 0 {
        Seq::empty()
    } else if s.drop_last().map_values(|r: Rejection| r.message()).contains(s.last().message()) {
        dedup_by_message(s.drop_last())
    } else {
        dedup_by_message(s.drop_last()).push(s.last())
    }
}

/// The rejection reasons recorded for the facts.
pub open spec fn eligibility_reasons(f: HardwareFacts) -> Seq<Rejection> {
    dedup_by_message(
        policy_reasons(
            f.architecture,
            f.cpu_vendor,
            f.cpu_vendor_raw@,
            f.gpu_vendors@,
            views(f.gpu_details@),
        ),
    )
}

proof fn lemma_dedup_keeps(s: Seq<Rejection>, x: Rejection)
    requires
        s.contains(x),
    ensures
        dedup_by_message(s).contains(x),
    decreases s.len(),
{
    let d = s.drop_last();
    if d.contains(x) {
        lemma_dedup_keeps(d, x);
        let i = choose|i: int| 0 <= i < dedup_by_message(d).len() && dedup_by_message(d)[i] == x;
        if !d.map_values(|r: Rejection| r.message()).contains(s.last().message()) {
            assert(dedup_by_message(s)[i] == x);
        }
    } else {
        assert(s.last() == x) by {
            let i = choose|i: int| 0 <= i < s.len() && s[i] == x;
            if i < s.len() - 1 {
                assert(d[i] == x);
            }
        }
        if d.map_values(|r: Rejection| r.message()).contains(x.message()) {
            let ms = d.map_values(|r: Rejection| r.message());
            let i = choose|i: int| 0 <= i < ms.len() && ms[i] == x.message();
            assert(ms[i] == d[i].message());
            crate::eligibility::types::lemma_message_identifies_rejection(d[i], x);
            assert(d[i] == x);
            assert(d.contains(x));
        } else {
            let r = dedup_by_message(s);
            assert(r[r.len() - 1] == x);
        }
    }
}

/// The combination reason for an AMD GPU next to a GPU of another vendor.
pub open spec fn amd_mixed_reason() -> Rejection {
    Rejection::UnsupportedHardwareCombination { detail: "AMD GPU mixed with non-AMD GPU(s)"@ }
}

/// Law: when an AMD GPU sits next to an NVIDIA, Intel or unknown GPU, the
/// machine is blocked and its recorded reasons include the AMD-mixed
/// combination reason (whatever else is reported with it).
pub proof fn lemma_amd_mixed_gpus_reported(f: HardwareFacts)
    requires
        f.gpu_vendors@.contains(GpuVendor::Amd),
        f.gpu_vendors@.contains(GpuVendor::Nvidia) || f.gpu_vendors@.contains(GpuVendor::Intel)
            || f.gpu_vendors@.contains(GpuVendor::Unknown),
    ensures
        eligibility_reasons(f).contains(amd_mixed_reason()),
        !meets_policy(f),
{
    let gpus = f.gpu_vendors@;
    let details = views(f.gpu_details@);
    let x = amd_mixed_reason();
    let d = join(details, "; "@);
    let nv = gpus.contains(GpuVendor::Nvidia);
    let intel = gpus.contains(GpuVendor::Intel);
    let unk = gpus.contains(GpuVendor::Unknown);
    let distinct = distinct_vendors(gpus);
    let p1: Seq<Rejection> = if nv { seq![Rejection::NvidiaGpuDetected { detail: d }] } else { Seq::empty() };
    let p2: Seq<Rejection> = if intel { seq![Rejection::IntelGpuDetected { detail: d }] } else { Seq::empty() };
    let p3: Seq<Rejection> = if unk {
        seq![Rejection::UnsupportedGpuVendor { detail: "unknown PCI/vendor among: "@ + d }]
    } else {
        Seq::empty()
    };
    let p4: Seq<Rejection> = if distinct.len() > 1 {
        seq![Rejection::MixedGpuVendors { detail: "vendors="@ + debug_names(distinct) + " details="@ + d }]
    } else {
        Seq::empty()
    };
    let front = p1 + p2 + p3 + p4;
    let g = gpu_reasons(gpus, details);
    assert(gpus.len() > 0);
    assert(g == front + seq![x] + Seq::<Rejection>::empty());
    assert(g[front.len() as int] == x);
    let head: Seq<Rejection> = (if !f.architecture.supported() {
        seq![Rejection::UnsupportedArchitecture { arch: f.architecture.name() }]
    } else {
        Seq::empty()
    }) + (match f.cpu_vendor {
        CpuVendor::Amd => Seq::empty(),
        CpuVendor::Intel => seq![Rejection::IntelCpuDetected],
        CpuVendor::Unknown => seq![Rejection::UnknownCpuVendor { raw: f.cpu_vendor_raw@ }],
    });
    let all = policy_reasons(f.architecture, f.cpu_vendor, f.cpu_vendor_raw@, gpus, details);
    assert(all == head + g);
    assert(all[(head.len() + front.len()) as int] == x);
    assert(all.contains(x));
    lemma_dedup_keeps(all, x);
    let k = if nv {
        choose|k: int| 0 <= k < gpus.len() && gpus[k] == GpuVendor::Nvidia
    } else if intel {
        choose|k: int| 0 <= k < gpus.len() && gpus[k] == GpuVendor::Intel
    } else {
        choose|k: int| 0 <= k < gpus.len() && gpus[k] == GpuVendor::Unknown
    };
    assert(gpus[k] != GpuVendor::Amd);
}

proof fn lemma_gpu_reasons_front(gpus: Seq<GpuVendor>, details: Seq<Seq<char>>)
    requires
        gpus.len() > 0,
    ensures
        ({
            let d = join(details, "; "@);
            let p1: Seq<Rejection> = if gpus.contains(GpuVendor::Nvidia) {
                seq![Rejection::NvidiaGpuDetected { detail: d }]
            } else {
                Seq::empty()
            };
            let p2: Seq<Rejection> = if gpus.contains(GpuVendor::Intel) {
                seq![Rejection::IntelGpuDetected { detail: d }]
            } else {
                Seq::empty()
            };
            let p3: Seq<Rejection> = if gpus.contains(GpuVendor::Unknown) {
                seq![Rejection::UnsupportedGpuVendor { detail: "unknown PCI/vendor among: "@ + d }]
            } else {
                Seq::empty()
            };
            let g = gpu_reasons(gpus, details);
            &&& (p1 + p2 + p3).len() <= g.len()
            &&& g.subrange(0, (p1 + p2 + p3).len() as int) == p1 + p2 + p3
        }),
{
    let d = join(details, "; "@);
    let p1: Seq<Rejection> = if gpus.contains(GpuVendor::Nvidia) {
        seq![Rejection::NvidiaGpuDetected { detail: d }]
    } else {
        Seq::empty()
    };
    let p2: Seq<Rejection> = if gpus.contains(GpuVendor::Intel) {
        seq![Rejection::IntelGpuDetected { detail: d }]
    } else {
        Seq::empty()
    };
    let p3: Seq<Rejection> = if gpus.contains(GpuVendor::Unknown) {
        seq![Rejection::UnsupportedGpuVendor { detail: "unknown PCI/vendor among: "@ + d }]
    } else {
        Seq::empty()
    };
    let g = gpu_reasons(gpus, details);
    let rest = g.subrange((p1 + p2 + p3).len() as int, g.len() as int);
    assert(g.subrange(0, (p1 + p2 + p3).len() as int) =~= p1 + p2 + p3);
}

/// Law: each GPU fault the facts show is reported among the recorded
/// reasons: an NVIDIA GPU, an Intel GPU and a GPU of unknown vendor, each
/// with its own reason naming the GPU details.
#[verifier::spinoff_prover]
#[verifier::rlimit(60)]
pub proof fn lemma_gpu_faults_reported(f: HardwareFacts)
    ensures
        f.gpu_vendors@.contains(GpuVendor::Nvidia) ==> eligibility_reasons(f).contains(
            Rejection::NvidiaGpuDetected { detail: join(views(f.gpu_details@), "; "@) },
        ),
        f.gpu_vendors@.contains(GpuVendor::Intel) ==> eligibility_reasons(f).contains(
            Rejection::IntelGpuDetected { detail: join(views(f.gpu_details@), "; "@) },
        ),
        f.gpu_vendors@.contains(GpuVendor::Unknown) ==> eligibility_reasons(f).contains(
            Rejection::UnsupportedGpuVendor {
                detail: "unknown PCI/vendor among: "@ + join(views(f.gpu_details@), "; "@),
            },
        ),
{
    let gpus = f.gpu_vendors@;
    let details = views(f.gpu_details@);
    let d = join(details, "; "@);
    let nv = gpus.contains(GpuVendor::Nvidia);
    let intel = gpus.contains(GpuVendor::Intel);
    let unk = gpus.contains(GpuVendor::Unknown);
    if gpus.len() > 0 {
        let p1: Seq<Rejection> = if nv { seq![Rejection::NvidiaGpuDetected { detail: d }] } else { Seq::empty() };
        let p2: Seq<Rejection> = if intel { seq![Rejection::IntelGpuDetected { detail: d }] } else { Seq::empty() };
        let p3: Seq<Rejection> = if unk {
            seq![Rejection::UnsupportedGpuVendor { detail: "unknown PCI/vendor among: "@ + d }]
        } else {
            Seq::empty()
        };
        let front = p1 + p2 + p3;
        let g = gpu_reasons(gpus, details);
        lemma_gpu_reasons_front(gpus, details);
        let all = policy_reasons(f.architecture, f.cpu_vendor, f.cpu_vendor_raw@, gpus, details);
        let head = all.subrange(0, all.len() - g.len());
        assert(all == head + g);
        if nv {
            assert(front[0] == p1[0]);
            assert(g[0] == front[0]);
            assert(all[head.len() as int] == p1[0]);
            lemma_dedup_keeps(all, p1[0]);
        }
        if intel {
            assert(front[p1.len() as int] == p2[0]);
            assert(g[p1.len() as int] == front[p1.len() as int]);
            assert(all[(head.len() + p1.len()) as int] == p2[0]);
            lemma_dedup_keeps(all, p2[0]);
        }
        if unk {
            assert(front[(p1.len() + p2.len()) as int] == p3[0]);
            assert(g[(p1.len() + p2.len()) as int] == front[(p1.len() + p2.len()) as int]);
            assert(all[(head.len() + p1.len() + p2.len()) as int] == p3[0]);
            lemma_dedup_keeps(all, p3[0]);
        }
    }
}

/// Law: an unsupported architecture and an Intel or unknown CPU are each
/// reported among the recorded reasons.
pub proof fn lemma_cpu_faults_reported(f: HardwareFacts)
    ensures
        !f.architecture.supported() ==> eligibility_reasons(f).contains(
            Rejection::UnsupportedArchitecture { arch: f.architecture.name() },
        ),
        f.cpu_vendor == CpuVendor::Intel ==> eligibility_reasons(f).contains(Rejection::IntelCpuDetected),
        f.cpu_vendor == CpuVendor::Unknown ==> eligibility_reasons(f).contains(
            Rejection::UnknownCpuVendor { raw: f.cpu_vendor_raw@ },
        ),
{
    let a: Seq<Rejection> = if !f.architecture.supported() {
        seq![Rejection::UnsupportedArchitecture { arch: f.architecture.name() }]
    } else {
        Seq::empty()
    };
    let c: Seq<Rejection> = match f.cpu_vendor {
        CpuVendor::Amd => Seq::empty(),
        CpuVendor::Intel => seq![Rejection::IntelCpuDetected],
        CpuVendor::Unknown => seq![Rejection::UnknownCpuVendor { raw: f.cpu_vendor_raw@ }],
    };
    let g = gpu_reasons(f.gpu_vendors@, views(f.gpu_details@));
    let all = policy_reasons(f.architecture, f.cpu_vendor, f.cpu_vendor_raw@, f.gpu_vendors@, views(f.gpu_details@));
    assert(all == a + c + g);
    if !f.architecture.supported() {
        assert(all[0] == a[0]);
        lemma_dedup_keeps(all, a[0]);
    }
    if f.cpu_vendor != CpuVendor::Amd {
        assert(all[a.len() as int] == c[0]);
        lemma_dedup_keeps(all, c[0]);
    }
}

/// The facts meet `amd-only-v1`: x86 family, AMD CPU, and every GPU (if any) AMD.
pub open spec fn meets_policy(f: HardwareFacts) -> bool {
    &&& f.architecture.supported()
    &&& f.cpu_vendor == CpuVendor::Amd
    &&& forall|i: int| 0 <= i < f.gpu_vendors@.len() ==> f.gpu_vendors@[i] == GpuVendor::Amd
}

proof fn lemma_dedup_empty(s: Seq<Rejection>)
    ensures
        (dedup_by_message(s).len() == 0) == (s.len() == 0),
    decreases s.len(),
{
    if s.len() > 0 {
        lemma_dedup_empty(s.drop_last());
        if s.drop_last().map_values(|r: Rejection| r.message()).contains(s.last().message()) {
            assert(s.drop_last().len() > 0);
        }
    }
}

proof fn lemma_reasons_empty(f: HardwareFacts)
    ensures
        (policy_reasons(
            f.architecture,
            f.cpu_vendor,
            f.cpu_vendor_raw@,
            f.gpu_vendors@,
            views(f.gpu_details@),
        ).len() == 0) == meets_policy(f),
{
    let gpus = f.gpu_vendors@;
    let g = gpu_reasons(gpus, views(f.gpu_details@));
    if gpus.len() > 0 {
        let amd = gpus.contains(GpuVendor::Amd);
        let nv = gpus.contains(GpuVendor::Nvidia);
        let intel = gpus.contains(GpuVendor::Intel);
        let unk = gpus.contains(GpuVendor::Unknown);
        if forall|i: int| 0 <= i < gpus.len() ==> gpus[i] == GpuVendor::Amd {
            assert(gpus[0] == GpuVendor::Amd);
            assert(amd);
            assert(!nv);
            assert(!intel);
            assert(!unk);
            assert(distinct_vendors(gpus) =~= seq![GpuVendor::Amd]);
            assert(g.len() == 0);
        } else {
            let i = choose|i: int| 0 <= i < gpus.len() && gpus[i] != GpuVendor::Amd;
            match gpus[i] {
                GpuVendor::Nvidia => assert(nv),
                GpuVendor::Intel => assert(intel),
                GpuVendor::Unknown => assert(unk),
                GpuVendor::Amd => {},
            }
            assert(g.len() > 0);
        }
    }
}

/// Vendor membership in a list of GPUs.
fn has_vendor(gpus: &Vec<GpuVendor>, v: GpuVendor) -> (r: bool)
    ensures
        r == gpus@.contains(v),
{
    let n = gpus.len();
    for i in 0..n
        invariant
            n == gpus@.len(),
            forall|j: int| 0 <= j < i ==> gpus@[j] != v,
    {
        if gpus[i] == v {
            return true;
        }
    }
    false
}

fn vendor_list_debug(v: &Vec<GpuVendor>) -> (r: String)
    ensures
        r@ == debug_names(v@),
{
    let mut res = String::from_str("[");
    let n = v.len();
    let ghost items = v@.map_values(|g: GpuVendor| "\""@ + g.name() + "\""@);
    for i in 0..n
        invariant
            n == v@.len(),
            items == v@.map_values(|g: GpuVendor| "\""@ + g.name() + "\""@),
            res@ == "["@ + join(items.take(i as int), ", "@),
    {
        let ghost before = items.take(i as int);
        let ghost old_res = res@;
        if i != 0 {
            res.append(", ");
        }
        res.append("\"");
        res.append(v[i].as_str());
        res.append("\"");
        proof {
            let now = items.take(i + 1);
            assert(now.drop_last() =~= before);
            if i == 0 {
                assert(res@ =~= "["@ + now[0]);
                assert(join(now, ", "@) == now[0]);
            } else {
                assert(res@ =~= "["@ + (join(before, ", "@) + ", "@ + now.last()));
            }
        }
    }
    assert(items.take(n as int) =~= items);
    res.append("]");
    res
}

fn copy_vendors(v: &Vec<GpuVendor>) -> (r: Vec<GpuVendor>)
    ensures
        r@ == v@,
{
    let mut out: Vec<GpuVendor> = Vec::new();
    let n = v.len();
    for i in 0..n
        invariant
            n == v@.len(),
            out@ == v@.take(i as int),
    {
        out.push(v[i]);
        assert(out@ =~= v@.take(i + 1));
    }
    assert(v@.take(n as int) =~= v@);
    out
}

fn copy_strings(v: &Vec<String>) -> (r: Vec<String>)
    ensures
        views(r@) == views(v@),
        r@.len() == v@.len(),
{
    let mut out: Vec<String> = Vec::new();
    let n = v.len();
    for i in 0..n
        invariant
            n == v@.len(),
            out@.len() == i,
            forall|j: int| 0 <= j < i ==> out@[j]@ == v@[j]@,
    {
        out.push(v[i].clone());
    }
    assert(views(out@) =~= views(v@));
    out
}

/// Keep the first rejection of each distinct message.
fn dedup_reasons(reasons: Vec<HardwareRejection>) -> (r: Vec<HardwareRejection>)
    ensures
        rejection_views(r@) == dedup_by_message(rejection_views(reasons@)),
{
    let mut out: Vec<HardwareRejection> = Vec::new();
    let mut seen: Vec<String> = Vec::new();
    let n = reasons.len();
    for i in 0..n
        invariant
            n == reasons@.len(),
            rejection_views(out@) == dedup_by_message(rejection_views(reasons@.take(i as int))),
            views(seen@) == rejection_views(reasons@.take(i as int)).map_values(
                |x: Rejection| x.message(),
            ),
    {
        let ghost prefix = rejection_views(reasons@.take(i as int));
        let ghost next = rejection_views(reasons@.take(i + 1));
        assert(next.drop_last() =~= prefix);
        assert(next.last() == reasons@[i as int]@);
        let m = reasons[i].message();
        let mut found = false;
        let k = seen.len();
        for j in 0..k
            invariant
                k == seen@.len(),
                found == exists|t: int| 0 <= t < j && seen@[t]@ == m@,
        {
            if seen[j] == m {
                found = true;
            }
        }
        proof {
            let msgs = prefix.map_values(|x: Rejection| x.message());
            assert(msgs.len() == k);
            if found {
                let t = choose|t: int| 0 <= t < k && seen@[t]@ == m@;
                assert(views(seen@)[t] == seen@[t]@);
                assert(msgs[t] == m@);
                assert(msgs.contains(m@));
            } else {
                assert forall|t: int| 0 <= t < msgs.len() implies msgs[t] != m@ by {
                    assert(views(seen@)[t] == seen@[t]@);
                }
                assert(!msgs.contains(m@));
            }
        }
        let ghost old_seen = seen@;
        if !found {
            out.push(reasons[i].duplicate());
        }
        seen.push(m);
        proof {
            assert(seen@ =~= old_seen.push(m));
            assert(views(seen@) =~= views(old_seen).push(m@));
            assert(views(seen@) =~= next.map_values(|x: Rejection| x.message()));
            assert(rejection_views(out@) =~= dedup_by_message(next));
        }
    }
    assert(reasons@.take(n as int) =~= reasons@);
    out
}

/// The rejections raised by the detected GPUs.
#[verifier::spinoff_prover]
#[verifier::rlimit(60)]
fn gpu_rejections(gpus: &Vec<GpuVendor>, details_in: &Vec<String>) -> (r: Vec<HardwareRejection>)
    ensures
        rejection_views(r@) == gpu_reasons(gpus@, views(details_in@)),
{
    let mut reasons: Vec<HardwareRejection> = Vec::new();
    if gpus.len() != 0 {
        let has_amd = has_vendor(gpus, GpuVendor::Amd);
        let has_nvidia = has_vendor(gpus, GpuVendor::Nvidia);
        let has_intel = has_vendor(gpus, GpuVendor::Intel);
        let has_unknown = has_vendor(gpus, GpuVendor::Unknown);
        let mut distinct: Vec<GpuVendor> = Vec::new();
        if has_amd {
            distinct.push(GpuVendor::Amd);
        }
        if has_nvidia {
            distinct.push(GpuVendor::Nvidia);
        }
        if has_intel {
            distinct.push(GpuVendor::Intel);
        }
        if has_unknown {
            distinct.push(GpuVendor::Unknown);
        }
        assert(distinct@ =~= distinct_vendors(gpus@));
        let details = join_strings(details_in, "; ");
        let ghost d = details@;
        let ghost mut tail = Seq::<Rejection>::empty();

        if has_nvidia {
            reasons.push(HardwareRejection::NvidiaGpuDetected { detail: details.clone() });
            proof {
                tail = tail.push(Rejection::NvidiaGpuDetected { detail: d });
            }
        }
        if has_intel {
            reasons.push(HardwareRejection::IntelGpuDetected { detail: details.clone() });
            proof {
                tail = tail.push(Rejection::IntelGpuDetected { detail: d });
            }
        }
        if has_unknown {
            let mut s = String::from_str("unknown PCI/vendor among: ");
            s.append(details.as_str());
            reasons.push(HardwareRejection::UnsupportedGpuVendor { detail: s });
            proof {
                tail = tail.push(
                    Rejection::UnsupportedGpuVendor { detail: "unknown PCI/vendor among: "@ + d },
                );
            }
        }
        if distinct.len() > 1 {
            let mut s = String::from_str("vendors=");
            let names = vendor_list_debug(&distinct);
            s.append(names.as_str());
            s.append(" details=");
            s.append(details.as_str());
            reasons.push(HardwareRejection::MixedGpuVendors { detail: s });
            proof {
                tail = tail.push(
                    Rejection::MixedGpuVendors {
                        detail: "vendors="@ + debug_names(distinct@) + " details="@ + d,
                    },
                );
            }
        }
        if has_amd && (has_nvidia || has_intel || has_unknown) {
            reasons.push(
                HardwareRejection::UnsupportedHardwareCombination {
                    detail: String::from_str("AMD GPU mixed with non-AMD GPU(s)"),
                },
            );
            proof {
                tail = tail.push(
                    Rejection::UnsupportedHardwareCombination {
                        detail: "AMD GPU mixed with non-AMD GPU(s)"@,
                    },
                );
            }
        }
        if !has_amd && !has_nvidia && !has_intel && has_unknown {
            // The unknown vendor is already reported above.
        } else if !has_amd && !has_nvidia && !has_intel {
            reasons.push(HardwareRejection::UnsupportedGpuVendor { detail: details });
            proof {
                tail = tail.push(Rejection::UnsupportedGpuVendor { detail: d });
            }
        }
        proof {
            assert(tail =~= gpu_reasons(gpus@, views(details_in@)));
            assert(rejection_views(reasons@) =~= tail);
        }
    } else {
        assert(gpu_reasons(gpus@, views(details_in@)) =~= Seq::<
            Rejection,
        >::empty());
    }
    reasons
}

/// `e` is what evaluating the facts `f` gives.
pub open spec fn evaluated(e: HardwareEligibility, f: HardwareFacts) -> bool {
    &&& e.policy@ == HARDWARE_POLICY@
    &&& e.architecture == f.architecture
    &&& e.cpu_vendor == f.cpu_vendor
    &&& e.cpu_vendor_raw@ == f.cpu_vendor_raw@
    &&& e.gpu_vendors@ == f.gpu_vendors@
    &&& views(e.gpu_details@) == views(f.gpu_details@)
    &&& rejection_views(e.rejection_reasons@) == eligibility_reasons(f)
    &&& e.supported == (e.rejection_reasons@.len() == 0)
    &&& e.supported == meets_policy(f)
    &&& e.compatibility == (if e.supported {
        CompatibilityStatus::Supported
    } else {
        CompatibilityStatus::Blocked
    })
}

/// Evaluate eligibility from explicit facts.
pub fn evaluate_from_facts(facts: &HardwareFacts) -> (e: HardwareEligibility)
    ensures
        e.policy@ == HARDWARE_POLICY@,
        e.architecture == facts.architecture,
        e.cpu_vendor == facts.cpu_vendor,
        e.cpu_vendor_raw@ == facts.cpu_vendor_raw@,
        e.gpu_vendors@ == facts.gpu_vendors@,
        views(e.gpu_details@) == views(facts.gpu_details@),
        rejection_views(e.rejection_reasons@) == eligibility_reasons(*facts),
        e.supported == (e.rejection_reasons@.len() == 0),
        e.supported == meets_policy(*facts),
        e.compatibility == (if e.supported {
            CompatibilityStatus::Supported
        } else {
            CompatibilityStatus::Blocked
        }),
{
    let mut reasons: Vec<HardwareRejection> = Vec::new();
    let ghost arch_part = if !facts.architecture.supported() {
        seq![Rejection::UnsupportedArchitecture { arch: facts.architecture.name() }]
    } else {
        Seq::<Rejection>::empty()
    };
    let ghost cpu_part = match facts.cpu_vendor {
        CpuVendor::Amd => Seq::<Rejection>::empty(),
        CpuVendor::Intel => seq![Rejection::IntelCpuDetected],
        CpuVendor::Unknown => seq![Rejection::UnknownCpuVendor { raw: facts.cpu_vendor_raw@ }],
    };

    if !facts.architecture.is_supported() {
        reasons.push(
            HardwareRejection::UnsupportedArchitecture {
                arch: String::from_str(facts.architecture.as_str()),
            },
        );
    }
    assert(rejection_views(reasons@) =~= arch_part);
    match facts.cpu_vendor {
        CpuVendor::Amd => {},
        CpuVendor::Intel => reasons.push(HardwareRejection::IntelCpuDetected),
        CpuVendor::Unknown => reasons.push(
            HardwareRejection::UnknownCpuVendor { raw: facts.cpu_vendor_raw.clone() },
        ),
    }
    assert(rejection_views(reasons@) =~= arch_part + cpu_part);
    let mut gpu = gpu_rejections(&facts.gpu_vendors, &facts.gpu_details);
    reasons.append(&mut gpu);
    assert(rejection_views(reasons@) =~= policy_reasons(
        facts.architecture,
        facts.cpu_vendor,
        facts.cpu_vendor_raw@,
        facts.gpu_vendors@,
        views(facts.gpu_details@),
    ));

    let reasons = dedup_reasons(reasons);
    proof {
        lemma_reasons_empty(*facts);
        lemma_dedup_empty(
            policy_reasons(
                facts.architecture,
                facts.cpu_vendor,
                facts.cpu_vendor_raw@,
                facts.gpu_vendors@,
                views(facts.gpu_details@),
            ),
        );
    }
    let supported = reasons.len() == 0;
    HardwareEligibility {
        policy: String::from_str(HARDWARE_POLICY),
        architecture: facts.architecture,
        cpu_vendor: facts.cpu_vendor,
        cpu_vendor_raw: facts.cpu_vendor_raw.clone(),
        gpu_vendors: copy_vendors(&facts.gpu_vendors),
        gpu_details: copy_strings(&facts.gpu_details),
        supported,
        compatibility: if supported {
            CompatibilityStatus::Supported
        } else {
            CompatibilityStatus::Blocked
        },
        rejection_reasons: reasons,
    }
}


/// The exit code the policy documents for blocked facts: architecture first,
/// then the CPU vendor, then NVIDIA, Intel and unknown GPUs; `None` when supported.
pub open spec fn expected_exit_code(f: HardwareFacts) -> Option<ExitCode> {
    let gpus = f.gpu_vendors@;
    if !f.architecture.supported() {
        Some(ExitCode::UnsupportedArchitecture)
    } else if f.cpu_vendor == CpuVendor::Intel {
        Some(ExitCode::IntelCpu)
    } else if f.cpu_vendor == CpuVendor::Unknown {
        Some(ExitCode::UnknownCpuVendor)
    } else if gpus.contains(GpuVendor::Nvidia) {
        Some(ExitCode::NvidiaGpu)
    } else if gpus.contains(GpuVendor::Intel) {
        Some(ExitCode::IntelGpu)
    } else if gpus.contains(GpuVendor::Unknown) {
        Some(ExitCode::UnsupportedCombination)
    } else {
        None
    }
}

proof fn lemma_dedup_first(s: Seq<Rejection>)
    requires
        s.len() > 0,
    ensures
        dedup_by_message(s).len() > 0,
        dedup_by_message(s)[0] == s[0],
    decreases s.len(),
{
    if s.len() == 1 {
        assert(s.drop_last().len() == 0);
        assert(!s.drop_last().map_values(|r: Rejection| r.message()).contains(s.last().message()));
        assert(dedup_by_message(s.drop_last()).len() == 0);
    } else {
        lemma_dedup_first(s.drop_last());
        assert(s.drop_last()[0] == s[0]);
    }
}

/// Law: the exit code of the primary (first) rejection is decided by the facts
/// alone, in the documented order of precedence, and there is a primary
/// rejection exactly when the facts are blocked.
pub proof fn lemma_primary_exit_code(f: HardwareFacts)
    ensures
        (eligibility_reasons(f).len() == 0) == (expected_exit_code(f) is None),
        eligibility_reasons(f).len() > 0 ==> Some(exit_code_of(eligibility_reasons(f)[0]))
            == expected_exit_code(f),
{
    let raw = policy_reasons(
        f.architecture,
        f.cpu_vendor,
        f.cpu_vendor_raw@,
        f.gpu_vendors@,
        views(f.gpu_details@),
    );
    lemma_reasons_empty(f);
    lemma_dedup_empty(raw);
    let gpus = f.gpu_vendors@;
    if gpus.len() > 0 && !gpus.contains(GpuVendor::Nvidia) && !gpus.contains(GpuVendor::Intel)
        && !gpus.contains(GpuVendor::Unknown) {
        assert forall|i: int| 0 <= i < gpus.len() implies gpus[i] == GpuVendor::Amd by {
            match gpus[i] {
                GpuVendor::Nvidia => assert(gpus.contains(GpuVendor::Nvidia)),
                GpuVendor::Intel => assert(gpus.contains(GpuVendor::Intel)),
                GpuVendor::Unknown => assert(gpus.contains(GpuVendor::Unknown)),
                GpuVendor::Amd => {},
            }
        }
    }
    if gpus.len() == 0 {
        assert(!gpus.contains(GpuVendor::Nvidia));
        assert(!gpus.contains(GpuVendor::Intel));
        assert(!gpus.contains(GpuVendor::Unknown));
    }
    if raw.len() > 0 {
        lemma_dedup_first(raw);
    }
}

/// Evaluate eligibility from what the detectors read: the architecture, the
/// raw CPU vendor string (the vendor is classified from it), and the
/// display-class GPUs.
pub fn evaluate_eligibility(
    architecture: Architecture,
    cpu_vendor_raw: String,
    gpus: &Vec<DetectedGpu>,
) -> (e: HardwareEligibility)
    ensures
        exists|f: HardwareFacts|
            detected(f, architecture, cpu_vendor_raw@, gpus@) && #[trigger] evaluated(e, f),
{
    let facts = collect_hardware_facts(architecture, cpu_vendor_raw, gpus);
    let e = evaluate_from_facts(&facts);
    assert(evaluated(e, facts));
    e
}

} // verus!
