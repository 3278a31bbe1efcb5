//! Stable machine fingerprint without unnecessary PII.
//!
//! Includes: OS family/version, CPU brand/cores, total memory bucket, hostname
//! hash, eligibility architecture/vendor/compatibility (amd-only-v1).
//! Excludes: username, home path, MAC addresses, serial numbers, full hostname
//! plaintext.

use vstd::prelude::*;

use crate::digest::{hex_lower, push_utf8, sha256, sha256_hex_prefix};
use crate::eligibility::types::{CompatibilityStatus, GpuVendor, HardwareEligibility, HARDWARE_POLICY};
use crate::inspect::MachineReport;
use crate::text::{decimal, u64_to_decimal, usize_to_decimal};

verus! {

/// The field separator `|`.
pub open spec fn bar() -> Seq<u8> {
    seq![124u8]
}

/// `|g:<vendor>` for each GPU vendor.
pub open spec fn gpu_tags(g: Seq<GpuVendor>) -> Seq<u8>
    decreases g.len(),
{
    if g.len() == 0 {
        Seq::empty()
    } else {
        gpu_tags(g.drop_last()) + seq![124u8, 103u8, 58u8] + vstd::utf8::encode_utf8(g.last().name())
    }
}

/// The eligibility part of the fingerprint input.
pub open spec fn eligibility_bytes(el: Option<HardwareEligibility>) -> Seq<u8> {
    match el {
        Some(e) => vstd::utf8::encode_utf8(e.architecture.name()) + bar() + vstd::utf8::encode_utf8(
            e.cpu_vendor.name(),
        ) + bar() + vstd::utf8::encode_utf8(e.compatibility.name()) + gpu_tags(e.gpu_vendors@),
        None => vstd::utf8::encode_utf8(CompatibilityStatus::Blocked.name()),
    }
}

/// The bytes that are hashed: the identifying fields, each followed by `|`,
/// with memory rounded down to whole GiB.
pub open spec fn fingerprint_input(r: MachineReport) -> Seq<u8> {
    vstd::utf8::encode_utf8(r.os_family@) + bar() + vstd::utf8::encode_utf8(r.os_version@) + bar()
        + vstd::utf8::encode_utf8(r.arch@) + bar() + vstd::utf8::encode_utf8(r.cpu.brand@) + bar()
        + vstd::utf8::encode_utf8(decimal(r.cpu.logical_cpus as nat)) + bar() + vstd::utf8::encode_utf8(
        decimal(r.cpu.physical_cores as nat),
    ) + bar() + vstd::utf8::encode_utf8(decimal((r.memory.total_bytes / 1073741824) as nat)) + bar()
        + vstd::utf8::encode_utf8(r.hostname_hash@) + bar() + vstd::utf8::encode_utf8(HARDWARE_POLICY@)
        + bar() + eligibility_bytes(r.eligibility)
}

/// `kv-` and the first 16 hex digits of the SHA-256 of the fingerprint input.
pub open spec fn fingerprint_text(r: MachineReport) -> Seq<char> {
    "kv-"@ + hex_lower(sha256(fingerprint_input(r))).take(16)
}

fn push_bar(b: &mut Vec<u8>)
    ensures
        final(b)@ == old(b)@ + bar(),
{
    b.push(124u8);
    assert(b@ =~= old(b)@ + bar());
}

fn push_eligibility(b: &mut Vec<u8>, el: &Option<HardwareEligibility>)
    ensures
        final(b)@ == old(b)@ + eligibility_bytes(*el),
{
    let ghost start = b@;
    match el {
        Some(e) => {
            push_utf8(b, e.architecture.as_str());
            push_bar(b);
            push_utf8(b, e.cpu_vendor.as_str());
            push_bar(b);
            push_utf8(b, e.compatibility.as_str());
            let ghost mid = b@;
            let n = e.gpu_vendors.len();
            for i in 0..n
                invariant
                    n == e.gpu_vendors@.len(),
                    b@ == mid + gpu_tags(e.gpu_vendors@.take(i as int)),
            {
                b.push(124u8);
                b.push(103u8);
                b.push(58u8);
                push_utf8(b, e.gpu_vendors[i].as_str());
                proof {
                    let t = e.gpu_vendors@.take(i + 1);
                    assert(t.drop_last() =~= e.gpu_vendors@.take(i as int));
                    assert(b@ =~= mid + gpu_tags(t));
                }
            }
            assert(e.gpu_vendors@.take(n as int) =~= e.gpu_vendors@);
            assert(b@ =~= start + eligibility_bytes(*el));
        },
        None => {
            push_utf8(b, CompatibilityStatus::Blocked.as_str());
        },
    }
}

/// The machine's fingerprint: `kv-` and 16 hex digits of a SHA-256 over its
/// identifying fields.
pub fn machine_fingerprint(report: &MachineReport) -> (s: String)
    ensures
        s@ == fingerprint_text(*report),
{
    let mut b: Vec<u8> = Vec::new();
    push_utf8(&mut b, report.os_family.as_str());
    push_bar(&mut b);
    push_utf8(&mut b, report.os_version.as_str());
    push_bar(&mut b);
    push_utf8(&mut b, report.arch.as_str());
    push_bar(&mut b);
    push_utf8(&mut b, report.cpu.brand.as_str());
    push_bar(&mut b);
    let logical = usize_to_decimal(report.cpu.logical_cpus);
    push_utf8(&mut b, logical.as_str());
    push_bar(&mut b);
    let physical = usize_to_decimal(report.cpu.physical_cores);
    push_utf8(&mut b, physical.as_str());
    push_bar(&mut b);
    let gib = u64_to_decimal(report.memory.total_bytes / 1073741824);
    push_utf8(&mut b, gib.as_str());
    push_bar(&mut b);
    push_utf8(&mut b, report.hostname_hash.as_str());
    push_bar(&mut b);
    push_utf8(&mut b, HARDWARE_POLICY);
    push_bar(&mut b);
    push_eligibility(&mut b, &report.eligibility);
    assert(b@ =~= fingerprint_input(*report));
    let h = sha256_hex_prefix(&b, 16);
    let mut s = String::from_str("kv-");
    s.append(h.as_str());
    s
}

} // verus!
