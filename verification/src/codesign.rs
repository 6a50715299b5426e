//! The code-signature model: a whole-binary hash and one hash per 4096-byte page.

use vstd::prelude::*;
use crate::digest::{fingerprint, is_hex64, sha256_hex};
use crate::text::{decimal, is_decimal_of, lemma_decimal_reads_back, push_decimal};

verus! {

/// One page of a binary and its hash.
pub struct SectionA4 {
    pub index: usize,
    pub hash: String,
    pub size: usize,
}

/// The prepared signature of a binary.
pub struct CodeSignatureA4 {
    pub binary_hash: String,
    pub section_count: usize,
    pub signature_blob: String,
}

/// The code-signature engine.
pub struct CodeSignEngineA4;

/// How many 4096-byte pages a binary of `n` bytes spans.
pub open spec fn page_count(n: nat) -> nat {
    (n + 4095) / 4096
}

/// The size of page `k` of a binary of `n` bytes.
pub open spec fn page_size(n: nat, k: nat) -> nat {
    if n - 4096 * k < 4096 {
        (n - 4096 * k) as nat
    } else {
        4096
    }
}

/// Page `k` of `data`.
pub open spec fn page(data: Seq<u8>, k: nat) -> Seq<u8> {
    data.subrange((4096 * k) as int, (4096 * k + page_size(data.len(), k)) as int)
}

/// `s` describes page `k` of `data`: its number, its size and its hash (64
/// lowercase hexadecimal digits).
pub open spec fn describes_page(data: Seq<u8>, k: nat, s: SectionA4) -> bool {
    &&& s.index == k
    &&& s.size == page_size(data.len(), k)
    &&& s.hash@ == fingerprint(page(data, k))
    &&& is_hex64(s.hash@)
}

/// `secs` lists the pages of `data` in order.
pub open spec fn pages_of(data: Seq<u8>, secs: Seq<SectionA4>) -> bool {
    &&& secs.len() == page_count(data.len())
    &&& forall|k: int| 0 <= k < secs.len() ==> describes_page(data, k as nat, #[trigger] secs[k])
}

/// The signature blob text for a binary hash and a page count.
pub open spec fn signature_blob_text(hash: Seq<char>, sections: nat) -> Seq<char> {
    "SIGNITIFY-A4-CODESIGN\nBINARY_HASH="@ + hash + "\nSECTIONS="@ + decimal(sections)
        + "\nSTATUS=PREPARED\n"@
}

impl CodeSignEngineA4 {
    /// The signature of a binary whose contents are `data` (the caller reads them).
    pub fn prepare_signature_blob(data: &[u8]) -> (out: CodeSignatureA4)
        ensures
            out.binary_hash@ == fingerprint(data@),
            is_hex64(out.binary_hash@),
            out.section_count == page_count(data@.len()),
            out.signature_blob@ == signature_blob_text(
                fingerprint(data@),
                page_count(data@.len()),
            ),
    {
        let hash = Self::hash_binary(data);
        let sections = Self::simulate_sections(data);
        let count = sections.len();
        let blob = Self::build_fake_signature(hash.as_str(), count);
        CodeSignatureA4 { binary_hash: hash, section_count: count, signature_blob: blob }
    }

    /// The hex SHA-256 of the whole binary.
    pub fn hash_binary(data: &[u8]) -> (out: String)
        ensures
            out@ == fingerprint(data@),
            out@.len() == 64,
            is_hex64(out@),
    {
        sha256_hex(data)
    }

    /// Splits the binary into 4096-byte pages (the last one shorter) and hashes
    /// each.
    pub fn simulate_sections(data: &[u8]) -> (out: Vec<SectionA4>)
        ensures
            pages_of(data@, out@),
    {
        let n = data.len();
        let mut sections: Vec<SectionA4> = Vec::new();
        let mut i: usize = 0;
        while i < n
            invariant
                n == data@.len(),
                i <= n,
                i < n ==> i == 4096 * sections@.len(),
                i <= 4096 * sections@.len(),
                i < n ==> sections@.len() < page_count(n as nat),
                i == n ==> sections@.len() == page_count(n as nat),
                forall|k: int|
                    0 <= k < sections@.len() ==> describes_page(
                        data@,
                        k as nat,
                        #[trigger] sections@[k],
                    ),
            decreases n - i,
        {
            let k = sections.len();
            let end = if n - i > 4096 {
                i + 4096
            } else {
                n
            };
            let chunk = vstd::slice::slice_subrange(data, i, end);
            let hash = sha256_hex(chunk);
            proof {
                assert(page_size(n as nat, k as nat) == end - i);
                assert(chunk@ == page(data@, k as nat));
            }
            sections.push(SectionA4 { index: i / 4096, hash, size: end - i });
            proof {
                let k1 = (k + 1) as nat;
                if end < n {
                    assert(4096 * k1 < n);
                    assert((n + 4095) / 4096 > k1) by (nonlinear_arith)
                        requires
                            4096 * k1 < n,
                    ;
                } else {
                    assert(4096 * k < n <= 4096 * k1);
                    assert((n + 4095) / 4096 == k1) by (nonlinear_arith)
                        requires
                            4096 * k < n <= 4096 * k1,
                            k1 == k + 1,
                    ;
                }
            }
            i = end;
        }
        proof {
            if n == 0 {
                assert(page_count(0) == 0);
            }
        }
        sections
    }

    /// The signature blob text for `hash` and `sections` pages.
    pub fn build_fake_signature(hash: &str, sections: usize) -> (out: String)
        ensures
            out@ == signature_blob_text(hash@, sections as nat),
    {
        let mut out = String::from_str("SIGNITIFY-A4-CODESIGN\nBINARY_HASH=");
        out.append(hash);
        out.append("\nSECTIONS=");
        push_decimal(&mut out, sections as u64);
        out.append("\nSTATUS=PREPARED\n");
        out
    }
}

/// The blob names the hash it was given and writes the page count in its
/// decimal form, so it reads back as that count.
pub proof fn lemma_blob_reports_page_count(hash: Seq<char>, n: nat)
    ensures
        exists|d: Seq<char>|
            #[trigger] is_decimal_of(d, n) && signature_blob_text(hash, n)
                == "SIGNITIFY-A4-CODESIGN\nBINARY_HASH="@ + hash + "\nSECTIONS="@ + d
                + "\nSTATUS=PREPARED\n"@,
{
    lemma_decimal_reads_back(n);
    assert(is_decimal_of(decimal(n), n));
}

/// The total size of a list of sections.
pub open spec fn total_size(secs: Seq<SectionA4>) -> nat
    decreases secs.len(),
{
    if secs.len() == 0 {
        0
    } else {
        total_size(secs.drop_last()) + secs.last().size as nat
    }
}

/// The pages of a binary cover it exactly: their sizes add up to its length.
pub proof fn lemma_pages_cover_binary(data: Seq<u8>, secs: Seq<SectionA4>)
    requires
        pages_of(data, secs),
    ensures
        total_size(secs) == data.len(),
{
    let n = data.len();
    assert forall|j: nat| j <= secs.len() implies #[trigger] total_size(secs.take(j as int)) == (
    if 4096 * j <= n {
        4096 * j
    } else {
        n
    }) by {
        lemma_prefix_size(data, secs, j);
    }
    assert(secs.take(secs.len() as int) =~= secs);
    let c = secs.len();
    assert(4096 * (c - 1) < n <= 4096 * c || c == 0) by (nonlinear_arith)
        requires
            c == (n + 4095) / 4096,
    ;
}

proof fn lemma_prefix_size(data: Seq<u8>, secs: Seq<SectionA4>, j: nat)
    requires
        pages_of(data, secs),
        j <= secs.len(),
    ensures
        total_size(secs.take(j as int)) == (if 4096 * j <= data.len() {
            4096 * j
        } else {
            data.len()
        }),
    decreases j,
{
    let n = data.len();
    let c = secs.len();
    assert(4096 * (c - 1) < n <= 4096 * c || c == 0) by (nonlinear_arith)
        requires
            c == (n + 4095) / 4096,
    ;
    if j == 0 {
        assert(secs.take(0) =~= Seq::<SectionA4>::empty());
    } else {
        lemma_prefix_size(data, secs, (j - 1) as nat);
        assert(secs.take(j as int).drop_last() =~= secs.take(j - 1));
        assert(describes_page(data, (j - 1) as nat, secs[j - 1]));
    }
}

} // verus!
