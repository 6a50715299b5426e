//! SHA-256 fingerprints in lowercase hexadecimal.

use vstd::prelude::*;

verus! {

/// The SHA-256 digest of `data`, as `sha2::Sha256` computes it.
pub uninterp spec fn sha256_of(data: Seq<u8>) -> Seq<u8>;

/// Calls `sha2::Sha256::digest` (one-shot update and finalize). Trusted: the
/// result is the digest named `sha256_of` of the input, and it is 32 bytes long,
/// as the hasher's fixed output size `U32` gives.
#[verifier::external_body]
fn sha256(data: &[u8]) -> (out: Vec<u8>)
    ensures
        out@ == sha256_of(data@),
        out@.len() == 32,
{
    <sha2::Sha256 as sha2::Digest>::digest(data).to_vec()
}

/// The lowercase hexadecimal digit for `d` (meaningful for `d < 16`).
pub open spec fn hex_digit(d: int) -> char {
    if d < 10 {
        (48 + d) as char
    } else {
        (87 + d) as char
    }
}

/// Lowercase hexadecimal text of `bytes`: two digits per byte, high nibble first.
pub open spec fn hex_lower(bytes: Seq<u8>) -> Seq<char> {
    Seq::new(
        2 * bytes.len(),
        |k: int|
            if k % 2 == 0 {
                hex_digit((bytes[k / 2] as int) / 16)
            } else {
                hex_digit((bytes[k / 2] as int) % 16)
            },
    )
}

/// Calls `hex::encode`. Trusted: the result is `hex_lower` of the input, which is
/// what the crate's lowercase table `0123456789abcdef` produces, high nibble
/// first for each byte.
#[verifier::external_body]
fn hex_encode(data: &[u8]) -> (out: String)
    ensures
        out@ == hex_lower(data@),
{
    hex::encode(data)
}

/// The fingerprint of `data`: its SHA-256 digest in lowercase hexadecimal.
pub open spec fn fingerprint(data: Seq<u8>) -> Seq<char> {
    hex_lower(sha256_of(data))
}

/// Whether `s` is 64 lowercase hexadecimal digits, the shape of a SHA-256
/// fingerprint.
pub open spec fn is_hex64(s: Seq<char>) -> bool {
    &&& s.len() == 64
    &&& forall|k: int| 0 <= k < 64 ==> {
        let c = #[trigger] s[k];
        ('0' <= c <= '9') || ('a' <= c <= 'f')
    }
}

/// Hashes `data` with SHA-256 and writes the digest in lowercase hexadecimal.
pub fn sha256_hex(data: &[u8]) -> (out: String)
    ensures
        out@ == fingerprint(data@),
        sha256_of(data@).len() == 32,
        is_hex64(out@),
{
    let digest = sha256(data);
    proof {
        lemma_fingerprint_shape(data@);
    }
    hex_encode(digest.as_slice())
}

/// Every fingerprint is 64 lowercase hexadecimal digits.
pub proof fn lemma_fingerprint_shape(data: Seq<u8>)
    requires
        sha256_of(data).len() == 32,
    ensures
        is_hex64(fingerprint(data)),
{
    assert forall|k: int| 0 <= k < 64 implies {
        let c = #[trigger] fingerprint(data)[k];
        ('0' <= c <= '9') || ('a' <= c <= 'f')
    } by {
        let b = sha256_of(data)[k / 2] as int;
        assert(0 <= b / 16 < 16);
        assert(0 <= b % 16 < 16);
    }
}

} // verus!
