//! Team, bundle and Apple identities and the strings that name them.

use vstd::prelude::*;
use crate::digest::{fingerprint, is_hex64, sha256_hex};
use vstd::string::StringSliceAdditionalSpecFns;

verus! {

/// `team.bundle`, the application identifier Apple tools expect.
pub open spec fn dotted_id(team: Seq<char>, bundle: Seq<char>) -> Seq<char> {
    team + "."@ + bundle
}

fn make_dotted_id(team: &str, bundle: &str) -> (out: String)
    ensures
        out@ == dotted_id(team@, bundle@),
{
    let mut out = String::from_str(team);
    out.append(".");
    out.append(bundle);
    out
}

/// A team and bundle pair.
pub struct SignitifyIdentityA2 {
    pub team_id: String,
    pub bundle_id: String,
}

impl SignitifyIdentityA2 {
    pub fn new(team_id: &str, bundle_id: &str) -> (out: Self)
        ensures
            out.team_id@ == team_id@,
            out.bundle_id@ == bundle_id@,
    {
        SignitifyIdentityA2 {
            team_id: String::from_str(team_id),
            bundle_id: String::from_str(bundle_id),
        }
    }

    /// The Apple style application identifier `team.bundle`.
    pub fn apple_style_app_id(&self) -> (out: String)
        ensures
            out@ == dotted_id(self.team_id@, self.bundle_id@),
    {
        make_dotted_id(self.team_id.as_str(), self.bundle_id.as_str())
    }
}

/// An Apple developer identity with the fingerprint of its bound certificate.
pub struct AppleIdentityA5 {
    pub team_id: String,
    pub apple_id: String,
    pub certificate_fingerprint: String,
}

/// The fingerprint field after binding a certificate whose text is `cert`.
pub open spec fn bound_fingerprint(cert: &str) -> Seq<char> {
    "CERT-"@ + fingerprint(cert.spec_bytes())
}

/// The identity line `APPLE_IDENTITY::TEAM=..::CERT=..::USER=..`.
pub open spec fn apple_identity_line(team: Seq<char>, cert: Seq<char>, user: Seq<char>) -> Seq<
    char,
> {
    "APPLE_IDENTITY::TEAM="@ + team + "::CERT="@ + cert + "::USER="@ + user
}

impl AppleIdentityA5 {
    /// An identity with no certificate bound yet.
    pub fn new(team_id: &str, apple_id: &str) -> (out: Self)
        ensures
            out.team_id@ == team_id@,
            out.apple_id@ == apple_id@,
            out.certificate_fingerprint@ == Seq::<char>::empty(),
    {
        AppleIdentityA5 {
            team_id: String::from_str(team_id),
            apple_id: String::from_str(apple_id),
            certificate_fingerprint: String::new(),
        }
    }

    /// Binds the certificate whose text is `cert_data`: the fingerprint becomes
    /// `CERT-` followed by the hex SHA-256 of the text's UTF-8 bytes.
    pub fn bind_certificate(&mut self, cert_data: &str)
        ensures
            final(self).certificate_fingerprint@ == bound_fingerprint(cert_data),
            final(self).team_id == old(self).team_id,
            final(self).apple_id == old(self).apple_id,
    {
        let mut fp = String::from_str("CERT-");
        let digest = Self::hash(cert_data);
        fp.append(digest.as_str());
        self.certificate_fingerprint = fp;
    }

    fn hash(input: &str) -> (out: String)
        ensures
            out@ == fingerprint(input.spec_bytes()),
    {
        sha256_hex(input.as_bytes())
    }

    pub fn identity_string(&self) -> (out: String)
        ensures
            out@ == apple_identity_line(
                self.team_id@,
                self.certificate_fingerprint@,
                self.apple_id@,
            ),
    {
        let mut out = String::from_str("APPLE_IDENTITY::TEAM=");
        out.append(self.team_id.as_str());
        out.append("::CERT=");
        out.append(self.certificate_fingerprint.as_str());
        out.append("::USER=");
        out.append(self.apple_id.as_str());
        out
    }
}

/// The first signing engine: team and bundle tags.
pub struct SigCoreEngineA1 {
    pub team_tag: String,
    pub bundle_tag: String,
}

/// The unsigned signature stub for an identity string.
pub open spec fn signature_stub_text(identity: Seq<char>) -> Seq<char> {
    "SIGNITIFY-CORE-A1\nIDENTITY="@ + identity + "\nSTATUS=UNSIGNED_STUB"@
}

impl SigCoreEngineA1 {
    pub fn new(team_tag: &str, bundle_tag: &str) -> (out: Self)
        ensures
            out.team_tag@ == team_tag@,
            out.bundle_tag@ == bundle_tag@,
    {
        SigCoreEngineA1 {
            team_tag: String::from_str(team_tag),
            bundle_tag: String::from_str(bundle_tag),
        }
    }

    /// `team.bundle`.
    pub fn build_identity_string(&self) -> (out: String)
        ensures
            out@ == dotted_id(self.team_tag@, self.bundle_tag@),
    {
        make_dotted_id(self.team_tag.as_str(), self.bundle_tag.as_str())
    }

    /// The text of the signature stub (the caller stores it where it wants).
    pub fn signature_stub(&self) -> (out: String)
        ensures
            out@ == signature_stub_text(dotted_id(self.team_tag@, self.bundle_tag@)),
    {
        let mut out = String::from_str("SIGNITIFY-CORE-A1\nIDENTITY=");
        let id = self.build_identity_string();
        out.append(id.as_str());
        out.append("\nSTATUS=UNSIGNED_STUB");
        out
    }
}

/// Both engines name a team and bundle the same way.
pub proof fn lemma_identity_strings_agree(a2: SignitifyIdentityA2, a1: SigCoreEngineA1)
    requires
        a2.team_id@ == a1.team_tag@,
        a2.bundle_id@ == a1.bundle_tag@,
    ensures
        dotted_id(a2.team_id@, a2.bundle_id@) == dotted_id(a1.team_tag@, a1.bundle_tag@),
{
}

/// Certificate text checks and fingerprints.
pub struct CertificateManagerA5;

/// Whether a certificate's text carries a PEM `BEGIN CERTIFICATE` marker.
pub open spec fn looks_like_certificate(cert: Seq<char>) -> bool {
    crate::text::contains_seq(cert, "BEGIN CERTIFICATE"@)
}

impl CertificateManagerA5 {
    /// The hex SHA-256 of the certificate text's UTF-8 bytes.
    pub fn extract_fingerprint(cert: &str) -> (out: String)
        ensures
            out@ == fingerprint(cert.spec_bytes()),
            is_hex64(out@),
    {
        sha256_hex(cert.as_bytes())
    }

    pub fn validate_certificate(cert: &str) -> (out: bool)
        ensures
            out == looks_like_certificate(cert@),
    {
        crate::text::contains_str(cert, "BEGIN CERTIFICATE")
    }
}

} // verus!
