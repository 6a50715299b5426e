//! The signed package and its manifest.

use vstd::prelude::*;
use crate::codesign::{page_count, signature_blob_text, CodeSignEngineA4};
use crate::digest::fingerprint;
use crate::identity::{apple_identity_line, AppleIdentityA5};
use crate::layout::{layout_fits, MachOLayoutA4};
use crate::text::{bool_text, decimal, is_decimal_of, lemma_decimal_reads_back, push_bool, push_decimal};

verus! {

/// A binary signed for an identity.
pub struct SignedPackageA6 {
    pub identity: String,
    pub binary_size: usize,
    pub signature_blob: String,
    pub layout_offset: usize,
    pub valid: bool,
}

/// The manifest text of a signed package.
pub open spec fn manifest_text(
    identity: Seq<char>,
    binary_size: nat,
    offset: nat,
    valid: bool,
    blob: Seq<char>,
) -> Seq<char> {
    "\nSIGNITIFY SIGNED PACKAGE A6\n----------------------------\nIDENTITY: "@ + identity
        + "\nBINARY_SIZE: "@ + decimal(binary_size) + "\nSIGNATURE_OFFSET: "@ + decimal(offset)
        + "\nVALID: "@ + bool_text(valid) + "\nBLOB:\n"@ + blob + "\n"@
}

impl SignedPackageA6 {
    pub fn export_manifest(&self) -> (out: String)
        ensures
            out@ == manifest_text(
                self.identity@,
                self.binary_size as nat,
                self.layout_offset as nat,
                self.valid,
                self.signature_blob@,
            ),
    {
        let mut out = String::from_str(
            "\nSIGNITIFY SIGNED PACKAGE A6\n----------------------------\nIDENTITY: ",
        );
        out.append(self.identity.as_str());
        out.append("\nBINARY_SIZE: ");
        push_decimal(&mut out, self.binary_size as u64);
        out.append("\nSIGNATURE_OFFSET: ");
        push_decimal(&mut out, self.layout_offset as u64);
        out.append("\nVALID: ");
        push_bool(&mut out, self.valid);
        out.append("\nBLOB:\n");
        out.append(self.signature_blob.as_str());
        out.append("\n");
        out
    }
}

/// The manifest writes the identity, the binary size and the signature offset
/// in decimal, `true` or `false` for validity, and the blob, each in its place.
pub proof fn lemma_manifest_fields(
    identity: Seq<char>,
    binary_size: nat,
    offset: nat,
    valid: bool,
    blob: Seq<char>,
)
    ensures
        exists|ds: Seq<char>, dof: Seq<char>|
            #[trigger] is_decimal_of(ds, binary_size) && #[trigger] is_decimal_of(dof, offset)
                && manifest_text(identity, binary_size, offset, valid, blob)
                == "\nSIGNITIFY SIGNED PACKAGE A6\n----------------------------\nIDENTITY: "@
                + identity + "\nBINARY_SIZE: "@ + ds + "\nSIGNATURE_OFFSET: "@ + dof
                + "\nVALID: "@ + (if valid {
                "true"@
            } else {
                "false"@
            }) + "\nBLOB:\n"@ + blob + "\n"@,
{
    lemma_decimal_reads_back(binary_size);
    lemma_decimal_reads_back(offset);
    assert(is_decimal_of(decimal(binary_size), binary_size));
    assert(is_decimal_of(decimal(offset), offset));
}

/// The signing pipeline.
pub struct RealSignEngineA6;

impl RealSignEngineA6 {
    /// Signs the binary whose contents are `binary` (the caller reads it) for
    /// `identity`.
    pub fn build_signed_package(binary: &[u8], identity: &AppleIdentityA5) -> (out:
        SignedPackageA6)
        requires
            layout_fits(binary@.len()),
        ensures
            out.identity@ == apple_identity_line(
                identity.team_id@,
                identity.certificate_fingerprint@,
                identity.apple_id@,
            ),
            out.binary_size == binary@.len(),
            out.layout_offset == binary@.len(),
            out.signature_blob@ == signature_blob_text(
                fingerprint(binary@),
                page_count(binary@.len()),
            ),
            out.valid,
    {
        let layout = MachOLayoutA4::build_layout(binary.len());
        let sig = CodeSignEngineA4::prepare_signature_blob(binary);
        let identity_str = identity.identity_string();
        SignedPackageA6 {
            identity: identity_str,
            binary_size: layout.binary_size,
            signature_blob: sig.signature_blob,
            layout_offset: layout.signature_offset,
            valid: true,
        }
    }
}

} // verus!
