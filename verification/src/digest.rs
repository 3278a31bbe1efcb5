//! SHA-256 digests and their lowercase hexadecimal rendering.

use sha2::Digest;
use vstd::prelude::*;

verus! {

/// The SHA-256 digest of a byte string.
pub uninterp spec fn sha256(data: Seq<u8>) -> Seq<u8>;

/// `sha2::Sha256::digest` (through the `Digest` trait): the SHA-256 digest of
/// `data`. The contract states that the result is the digest named `sha256`
/// of the bytes and that it is 32 bytes long; what SHA-256 computes is not
/// restated.
#[verifier::external_body]
pub(crate) fn sha256_digest(data: &Vec<u8>) -> (d: Vec<u8>)
    ensures
        d@ == sha256(data@),
        d@.len() == 32,
{
    sha2::Sha256::digest(data.as_slice()).to_vec()
}

/// The lowercase hexadecimal digit of `d < 16`.
pub open spec fn hex_lower_char(d: nat) -> char {
    if d < 10 {
        ((48 + d) as u32) as char
    } else {
        ((87 + d) as u32) as char
    }
}

/// Two lowercase hexadecimal digits per byte, high nibble first.
pub open spec fn hex_lower(bytes: Seq<u8>) -> Seq<char>
    decreases bytes.len(),
{
    if bytes.len() == 0 {
        Seq::empty()
    } else {
        hex_lower(bytes.drop_last()) + seq![
            hex_lower_char((bytes.last() / 16) as nat),
            hex_lower_char((bytes.last() % 16) as nat),
        ]
    }
}

/// The hexadecimal rendering is twice as long as the bytes.
pub proof fn lemma_hex_lower_len(bytes: Seq<u8>)
    ensures
        hex_lower(bytes).len() == 2 * bytes.len(),
    decreases bytes.len(),
{
    if bytes.len() > 0 {
        lemma_hex_lower_len(bytes.drop_last());
    }
}

/// `hex::encode`: each byte as two lowercase hexadecimal digits, high nibble
/// first, as the crate's documentation and its `HEX_CHARS_LOWER` table give.
#[verifier::external_body]
pub(crate) fn hex_encode(data: &Vec<u8>) -> (s: String)
    ensures
        s@ == hex_lower(data@),
{
    hex::encode(data)
}

/// The first `n` lowercase hexadecimal digits of the SHA-256 digest of `data`.
pub fn sha256_hex_prefix(data: &Vec<u8>, n: usize) -> (s: String)
    requires
        n <= 64,
    ensures
        s@ == hex_lower(sha256(data@)).take(n as int),
{
    let d = sha256_digest(data);
    let h = hex_encode(&d);
    proof {
        lemma_hex_lower_len(d@);
    }
    let p = h.as_str().substring_char(0, n);
    String::from_str(p)
}

/// Append the UTF-8 bytes of `s` to `buf`.
pub fn push_utf8(buf: &mut Vec<u8>, s: &str)
    ensures
        final(buf)@ == old(buf)@ + vstd::utf8::encode_utf8(s@),
{
    let mut b = s.as_bytes_vec();
    buf.append(&mut b);
}

} // verus!
