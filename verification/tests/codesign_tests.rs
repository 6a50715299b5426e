use sha2::{Digest, Sha256};
use signitify::codesign::CodeSignEngineA4;
use signitify::identity::AppleIdentityA5;
use signitify::layout::MachOLayoutA4;
use signitify::package::{RealSignEngineA6, SignedPackageA6};

fn hex_sha(data: &[u8]) -> String {
    hex::encode(Sha256::digest(data))
}

#[test]
fn sections_split_into_pages() {
    for (n, count) in [(0usize, 0usize), (1, 1), (4096, 1), (4097, 2), (10000, 3)] {
        let data: Vec<u8> = (0..n).map(|i| (i % 251) as u8).collect();
        let secs = CodeSignEngineA4::simulate_sections(&data);
        assert_eq!(secs.len(), count);
        let mut total = 0;
        for (k, s) in secs.iter().enumerate() {
            assert_eq!(s.index, k);
            let end = std::cmp::min(4096 * (k + 1), n);
            assert_eq!(s.size, end - 4096 * k);
            assert_eq!(s.hash, hex_sha(&data[4096 * k..end]));
            total += s.size;
        }
        assert_eq!(total, n);
    }
}

#[test]
fn fake_signature_text() {
    assert_eq!(
        CodeSignEngineA4::build_fake_signature("abcd", 12),
        "SIGNITIFY-A4-CODESIGN\nBINARY_HASH=abcd\nSECTIONS=12\nSTATUS=PREPARED\n"
    );
    assert_eq!(
        CodeSignEngineA4::build_fake_signature("", 0),
        "SIGNITIFY-A4-CODESIGN\nBINARY_HASH=\nSECTIONS=0\nSTATUS=PREPARED\n"
    );
}

#[test]
fn prepare_signature_blob_of_bytes() {
    let data = vec![7u8; 9000];
    let sig = CodeSignEngineA4::prepare_signature_blob(&data);
    assert_eq!(sig.binary_hash, hex_sha(&data));
    assert_eq!(sig.section_count, 3);
    assert_eq!(
        sig.signature_blob,
        format!(
            "SIGNITIFY-A4-CODESIGN\nBINARY_HASH={}\nSECTIONS={}\nSTATUS=PREPARED\n",
            hex_sha(&data),
            3
        )
    );
}

#[test]
fn layout_appends_signature() {
    let layout = MachOLayoutA4::build_layout(1000);
    assert_eq!(layout.binary_size, 1000);
    assert_eq!(layout.signature_offset, 1000);
    assert_eq!(layout.signature_size, 100 + 4096);
    assert_eq!(layout.total_size, 1000 + 4196);
    assert_eq!(layout.signature_offset + layout.signature_size, layout.total_size);
    let empty = MachOLayoutA4::build_layout(0);
    assert_eq!(empty.signature_size, 4096);
    assert_eq!(empty.total_size, 4096);
}

#[test]
fn lc_code_signature_points_at_layout() {
    let layout = MachOLayoutA4::build_layout(123456);
    let cmd = MachOLayoutA4.generate_lc_code_signature(&layout);
    assert_eq!(cmd.cmd, "LC_CODE_SIGNATURE");
    assert_eq!(cmd.data_offset, 123456);
    assert_eq!(cmd.data_size, 12345 + 4096);
}

#[test]
fn manifest_text() {
    let pkg = SignedPackageA6 {
        identity: "ID".to_string(),
        binary_size: 42,
        signature_blob: "BLOBTEXT".to_string(),
        layout_offset: 7,
        valid: true,
    };
    let expected = format!(r#"
SIGNITIFY SIGNED PACKAGE A6
----------------------------
IDENTITY: {}
BINARY_SIZE: {}
SIGNATURE_OFFSET: {}
VALID: {}
BLOB:
{}
"#, "ID", 42, 7, true, "BLOBTEXT");
    assert_eq!(pkg.export_manifest(), expected);
    let invalid = SignedPackageA6 { valid: false, ..pkg };
    assert!(invalid.export_manifest().contains("\nVALID: false\n"));
}

#[test]
fn signed_package_of_binary() {
    let mut identity = AppleIdentityA5::new("TEAM", "user@x");
    identity.bind_certificate("cert");
    let data = vec![0xcfu8, 0xfa, 0xed, 0xfe, 1, 2, 3];
    let pkg = RealSignEngineA6::build_signed_package(&data, &identity);
    assert_eq!(pkg.identity, identity.identity_string());
    assert_eq!(pkg.binary_size, 7);
    assert_eq!(pkg.layout_offset, 7);
    assert!(pkg.valid);
    assert_eq!(
        pkg.signature_blob,
        CodeSignEngineA4::prepare_signature_blob(&data).signature_blob
    );
}

#[test]
fn hashes_are_64_lowercase_hex() {
    let data = vec![3u8; 5000];
    let sig = CodeSignEngineA4::prepare_signature_blob(&data);
    assert_eq!(sig.binary_hash.len(), 64);
    for s in CodeSignEngineA4::simulate_sections(&data) {
        assert_eq!(s.hash.len(), 64);
        assert!(s.hash.chars().all(|c| c.is_ascii_digit() || ('a'..='f').contains(&c)));
    }
}
