use signitify::devices::{DeviceBridgeA1, DeviceBridgeR1};
use signitify::macho::{file_extension, MachOScannerA4};
use signitify::provisioning::ProvisioningA2;

#[test]
fn magic_numbers() {
    assert!(MachOScannerA4::check_magic(&[0xfe, 0xed, 0xfa, 0xce]));
    assert!(MachOScannerA4::check_magic(&[0xce, 0xfa, 0xed, 0xfe, 0]));
    assert!(MachOScannerA4::check_magic(&[0xfe, 0xed, 0xfa, 0xcf, 9, 9]));
    assert!(MachOScannerA4::check_magic(&[0xcf, 0xfa, 0xed, 0xfe]));
    assert!(!MachOScannerA4::check_magic(&[0xcf, 0xfa, 0xed]));
    assert!(!MachOScannerA4::check_magic(&[]));
    assert!(!MachOScannerA4::check_magic(&[0xca, 0xfe, 0xba, 0xbe]));
    assert!(!MachOScannerA4::check_magic(&[0, 0xcf, 0xfa, 0xed, 0xfe]));
}

#[test]
fn magic_depends_on_first_four_bytes() {
    assert_eq!(
        MachOScannerA4::check_magic(&[0xcf, 0xfa, 0xed, 0xfe, 1]),
        MachOScannerA4::check_magic(&[0xcf, 0xfa, 0xed, 0xfe, 2, 3])
    );
}

#[test]
fn signature_marker_search() {
    assert!(MachOScannerA4::detect_signature_section(b"xxLC_CODE_SIGNATUREyy"));
    assert!(MachOScannerA4::detect_signature_section(b"LC_CODE_SIGNATURE"));
    assert!(!MachOScannerA4::detect_signature_section(b"LC_CODE_SIGNATUR"));
    assert!(!MachOScannerA4::detect_signature_section(b""));
}

#[test]
fn describe_binary_fields() {
    let data = b"\xcf\xfa\xed\xfe....LC_CODE_SIGNATURE";
    let info = MachOScannerA4::describe_binary("Payload/A.app/A.dylib".to_string(), data);
    assert_eq!(info.path, "Payload/A.app/A.dylib");
    assert!(info.is_macho);
    assert!(info.has_signature_slot);
    assert_eq!(info.size, data.len());
}

#[test]
fn extensions_follow_path_rules() {
    assert_eq!(file_extension("Foo.app").as_deref(), Some("app"));
    assert_eq!(file_extension("a.b.app").as_deref(), Some("app"));
    assert_eq!(file_extension("foo.").as_deref(), Some(""));
    assert_eq!(file_extension(".app"), None);
    assert_eq!(file_extension("foo"), None);
    assert_eq!(file_extension(".."), None);
    assert_eq!(file_extension(".a.b").as_deref(), Some("b"));
    for name in ["Foo.app", "a.b.app", "foo.", ".app", "foo", ".a.b", "x.dylib"] {
        let expected = std::path::Path::new(name).extension().map(|e| e.to_string_lossy().to_string());
        assert_eq!(file_extension(name), expected, "{}", name);
    }
}

#[test]
fn bundles_and_binaries() {
    assert!(MachOScannerA4::is_app_bundle("Demo.app"));
    assert!(!MachOScannerA4::is_app_bundle("Demo.apps"));
    assert!(!MachOScannerA4::is_app_bundle("Demo"));
    assert!(!MachOScannerA4::is_app_bundle(".app"));
    assert!(MachOScannerA4::is_binary_candidate("libfoo.dylib"));
    assert!(MachOScannerA4::is_binary_candidate("Info.plist"));
    assert!(!MachOScannerA4::is_binary_candidate("Demo"));
}

#[test]
fn device_listing_lines() {
    assert_eq!(
        DeviceBridgeA1::parse_device_list("00008030-001\r\n00008101-002\n"),
        vec!["00008030-001".to_string(), "00008101-002".to_string()]
    );
    assert!(DeviceBridgeR1::parse_device_list("").is_empty());
    assert_eq!(DeviceBridgeR1::parse_device_list("\n"), vec!["".to_string()]);
    assert_eq!(DeviceBridgeR1::parse_device_list("a\nb"), vec!["a".to_string(), "b".to_string()]);
    for text in ["x\r", "a\n\nb\r\n", "\r\n", "one", "é\nü\r\n"] {
        let expected: Vec<String> = text.lines().map(|s| s.to_string()).collect();
        assert_eq!(DeviceBridgeA1::parse_device_list(text), expected, "{:?}", text);
    }
}

#[test]
fn listing_lines_hold_no_newline() {
    for line in DeviceBridgeA1::parse_device_list("a\r\nb\n\nc") {
        assert!(!line.contains('\n'));
    }
}

fn split_and_take(text: &str) -> Option<(String, String)> {
    let team = text.split("TeamIdentifier").nth(1)?.chars().take(10).collect::<String>();
    let app = text.split("application-identifier").nth(1)?.chars().take(40).collect::<String>();
    Some((team, app))
}

#[test]
fn minimal_info_from_profile_text() {
    let text = "<key>TeamIdentifier</key><array><string>ABCDE12345</string>\
                <key>application-identifier</key><string>ABCDE12345.com.example.app</string>";
    let info = ProvisioningA2::parse_minimal_info(text).unwrap();
    assert_eq!(info.0, "</key><arr");
    assert_eq!(info.1, "</key><string>ABCDE12345.com.example.app");
    assert_eq!(Some(info), split_and_take(text));
}

#[test]
fn minimal_info_needs_both_markers() {
    assert_eq!(ProvisioningA2::parse_minimal_info("TeamIdentifier only"), None);
    assert_eq!(ProvisioningA2::parse_minimal_info("application-identifier only"), None);
    assert_eq!(ProvisioningA2::parse_minimal_info(""), None);
}

#[test]
fn minimal_info_stops_at_next_marker() {
    let text = "TeamIdentifierABTeamIdentifierCD application-identifier";
    let info = ProvisioningA2::parse_minimal_info(text).unwrap();
    assert_eq!(info.0, "AB");
    assert_eq!(info.1, "");
    assert_eq!(Some(info), split_and_take(text));
    let text2 = "TeamIdentifierÜñíçødé-long-team-id application-identifier1234567890123456789012345678901234567890XYZ";
    assert_eq!(ProvisioningA2::parse_minimal_info(text2), split_and_take(text2));
}

#[test]
fn bundle_walk_choices() {
    let top: Vec<String> = ["Info.plist", "A.app", "notes", "B.app"].iter().map(|s| s.to_string()).collect();
    assert_eq!(MachOScannerA4::app_bundles(&top), vec![1, 3]);
    let inside: Vec<String> = ["A", "_CodeSignature", "lib.dylib", "Info.plist"].iter().map(|s| s.to_string()).collect();
    assert_eq!(MachOScannerA4::pick_binary(&inside), Some(2));
    let none: Vec<String> = ["A", "B"].iter().map(|s| s.to_string()).collect();
    assert_eq!(MachOScannerA4::pick_binary(&none), None);
}
