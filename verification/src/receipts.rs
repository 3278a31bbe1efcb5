//! Evidence receipts: the digest that binds a receipt to the evidence it
//! reports, and the checks a loaded receipt must pass.

use vstd::prelude::*;

use crate::digest::{hex_encode, hex_lower, sha256, sha256_digest};
use crate::text::{decimal, str_eq, u64_to_decimal};

verus! {

/// The format tag of an evidence receipt.
pub open spec fn receipt_format() -> Seq<char> {
    "kraftverk.receipt"@
}

/// The evidence hash of a receipt's canonical payload: the lowercase
/// hexadecimal SHA-256 digest of its bytes.
pub open spec fn evidence_hash_of(payload: Seq<u8>) -> Seq<char> {
    hex_lower(sha256(payload))
}

/// Hash the canonical payload bytes of a receipt.
pub fn evidence_hash(payload: &Vec<u8>) -> (h: String)
    ensures
        h@ == evidence_hash_of(payload@),
{
    let d = sha256_digest(payload);
    hex_encode(&d)
}

/// A receipt verifies when its stored hash is the recomputed one, its format
/// is the receipt format and its version is 1.
pub fn receipt_verifies(format: &str, version: u32, stored_hash: &str, computed_hash: &str) -> (b: bool)
    ensures
        b == (stored_hash@ == computed_hash@ && format@ == receipt_format() && version == 1),
{
    str_eq(stored_hash, computed_hash) && str_eq(format, "kraftverk.receipt") && version == 1
}

/// The verdict on a loaded receipt: its format, then its version, then its
/// hash.
pub open spec fn receipt_check(format: Seq<char>, version: u32, hash_matches: bool) -> Result<(), Seq<char>> {
    if format != receipt_format() {
        Err("unknown format '"@ + format + "'"@)
    } else if version != 1 {
        Err("unsupported receipt version "@ + decimal(version as nat))
    } else if !hash_matches {
        Err("evidence hash mismatch"@)
    } else {
        Ok(())
    }
}

/// Check a loaded receipt, naming the first thing that is wrong with it.
pub fn validate_receipt(format: &str, version: u32, stored_hash: &str, computed_hash: &str) -> (r: Result<(), String>)
    ensures
        match receipt_check(format@, version, stored_hash@ == computed_hash@) {
            Ok(()) => r is Ok,
            Err(m) => r matches Err(e) && e@ == m,
        },
{
    if !str_eq(format, "kraftverk.receipt") {
        let mut m = String::from_str("unknown format '");
        m.append(format);
        m.append("'");
        return Err(m);
    }
    if version != 1 {
        let mut m = String::from_str("unsupported receipt version ");
        let d = u64_to_decimal(version as u64);
        m.append(d.as_str());
        return Err(m);
    }
    if !receipt_verifies(format, version, stored_hash, computed_hash) {
        return Err(String::from_str("evidence hash mismatch"));
    }
    Ok(())
}

/// A receipt written with the hash of its own payload passes validation, and
/// two receipts over the same payload carry the same hash.
pub proof fn lemma_fresh_receipt_validates(p: Seq<u8>, q: Seq<u8>)
    ensures
        receipt_check(receipt_format(), 1, evidence_hash_of(p) == evidence_hash_of(p)) == Ok::<(), Seq<char>>(()),
        p == q ==> evidence_hash_of(p) == evidence_hash_of(q),
{
}

} // verus!
