use signitify::codesign::CodeSignEngineA4;
use signitify::entitlements::{EntitlementsA2, SigningCoreA2};
use signitify::identity::{AppleIdentityA5, CertificateManagerA5, SigCoreEngineA1, SignitifyIdentityA2};

const ABC_SHA256: &str = "ba7816bf8f01cfea414140de5dae2223b00361a396177a9cb410ff61f20015ad";

#[test]
fn app_id_joins_team_and_bundle() {
    let id = SignitifyIdentityA2::new("TEAM123", "com.example.app");
    assert_eq!(id.apple_style_app_id(), "TEAM123.com.example.app");
    let engine = SigCoreEngineA1::new("TEAM123", "com.example.app");
    assert_eq!(engine.build_identity_string(), id.apple_style_app_id());
}

#[test]
fn signature_stub_text() {
    let engine = SigCoreEngineA1::new("T", "b.c");
    assert_eq!(
        engine.signature_stub(),
        "SIGNITIFY-CORE-A1\nIDENTITY=T.b.c\nSTATUS=UNSIGNED_STUB"
    );
}

#[test]
fn fingerprint_is_sha256_hex() {
    assert_eq!(CertificateManagerA5::extract_fingerprint("abc"), ABC_SHA256);
    assert_eq!(
        CertificateManagerA5::extract_fingerprint(""),
        "e3b0c44298fc1c149afbf4c8996fb92427ae41e4649b934ca495991b7852b855"
    );
    assert_eq!(CodeSignEngineA4::hash_binary(b"abc"), ABC_SHA256);
}

#[test]
fn fingerprint_shape_is_64_lowercase_hex() {
    let fp = CertificateManagerA5::extract_fingerprint("-----BEGIN CERTIFICATE-----\nMII\n");
    assert_eq!(fp.len(), 64);
    assert!(fp.chars().all(|c| c.is_ascii_digit() || ('a'..='f').contains(&c)));
}

#[test]
fn validate_certificate_looks_for_marker() {
    assert!(CertificateManagerA5::validate_certificate(
        "-----BEGIN CERTIFICATE-----\nMIIB\n-----END CERTIFICATE-----\n"
    ));
    assert!(!CertificateManagerA5::validate_certificate("BEGIN CERTIFICAT"));
    assert!(!CertificateManagerA5::validate_certificate(""));
    assert!(CertificateManagerA5::validate_certificate("xxBEGIN CERTIFICATE"));
}

#[test]
fn bind_certificate_sets_fingerprint() {
    let mut id = AppleIdentityA5::new("TEAMX", "me@example.com");
    assert_eq!(id.certificate_fingerprint, "");
    assert_eq!(
        id.identity_string(),
        "APPLE_IDENTITY::TEAM=TEAMX::CERT=::USER=me@example.com"
    );
    id.bind_certificate("abc");
    assert_eq!(id.certificate_fingerprint, format!("CERT-{}", ABC_SHA256));
    assert_eq!(id.team_id, "TEAMX");
    assert_eq!(id.apple_id, "me@example.com");
    assert_eq!(
        id.identity_string(),
        format!("APPLE_IDENTITY::TEAM=TEAMX::CERT=CERT-{}::USER=me@example.com", ABC_SHA256)
    );
}

fn expected_entitlements(team_id: &str, bundle_id: &str) -> String {
    format!(r#"
<?xml version="1.0" encoding="UTF-8"?>
<plist version="1.0">
<dict>
    <key>application-identifier</key>
    <string>{}.{}</string>

    <key>get-task-allow</key>
    <true/>

    <key>keychain-access-groups</key>
    <array>
        <string>{}.{}</string>
    </array>

    <key>com.apple.developer.team-identifier</key>
    <string>{}</string>
</dict>
</plist>
"#, team_id, bundle_id, team_id, bundle_id, team_id)
}

#[test]
fn entitlements_plist_text() {
    assert_eq!(
        EntitlementsA2::generate("ABCDE12345", "com.signitify.demo"),
        expected_entitlements("ABCDE12345", "com.signitify.demo")
    );
}

#[test]
fn signature_layer_text() {
    let layer = SigningCoreA2::prepare_signature_layer("TM", "com.x");
    assert_eq!(
        layer,
        format!(
            "SIGNITIFY SIGN LAYER A2\nIDENTITY={}\nENTITLEMENTS_READY\n{}",
            "TM.com.x",
            expected_entitlements("TM", "com.x")
        )
    );
}
