use signitify::core_v6::SignitifyCoreV6;
use signitify::daemon::{SignitifyDaemonF1, TrackedApp};
use signitify::device_list::SignitifyCore;
use signitify::devices::InstallEngineR1;
use signitify::lockdown::{install_v3_result, lockdown_established, service_port, DeviceSessionV4};
use signitify::provisioning::ProvisioningA5;
use signitify::session::{SessionManagerV5, TrackedAppV5};

fn session(udid: &str) -> DeviceSessionV4 {
    DeviceSessionV4::from_lockdown(udid, 0, 0).unwrap()
}

#[test]
fn device_list_appends() {
    let mut core = SignitifyCore::new();
    assert!(core.devices.is_empty());
    core.add_device("a".to_string());
    core.add_device("b".to_string());
    assert_eq!(core.devices, vec!["a".to_string(), "b".to_string()]);
}

#[test]
fn provisioning_allows_what_was_added() {
    let mut p = ProvisioningA5::new("TEAM");
    assert_eq!(p.team_id, "TEAM");
    assert!(!p.is_device_allowed("dev1"));
    p.add_device("dev1");
    p.add_bundle("com.a");
    assert!(p.is_device_allowed("dev1"));
    assert!(!p.is_device_allowed("dev2"));
    assert!(p.is_bundle_allowed("com.a"));
    assert!(!p.is_bundle_allowed("com.b"));
    p.add_device("dev2");
    assert!(p.is_device_allowed("dev1"));
    assert!(p.is_device_allowed("dev2"));
}

#[test]
fn lockdown_outcomes() {
    assert!(DeviceSessionV4::from_lockdown("udid", 0, 0).is_some());
    assert_eq!(DeviceSessionV4::from_lockdown("udid", 0, 0).unwrap().udid, "udid");
    assert!(DeviceSessionV4::from_lockdown("udid", -1, 0).is_none());
    assert!(DeviceSessionV4::from_lockdown("udid", 0, -5).is_none());
    assert!(DeviceSessionV4::from_lockdown("ud\0id", 0, 0).is_none());
    assert!(lockdown_established("x", 0, 0));
    assert!(!lockdown_established("x\0", 0, 0));
    assert_eq!(service_port(0, 0), Some(0));
    assert_eq!(service_port(0, 62078), Some(62078));
    assert_eq!(service_port(1, 62078), None);
    assert_eq!(DeviceSessionV4::tunnel_port(0, 0), None);
    assert_eq!(DeviceSessionV4::tunnel_port(0, 49152), Some(49152));
    assert_eq!(DeviceSessionV4::tunnel_port(-1, 49152), None);
    assert_eq!(DeviceSessionV4::tunnel_address(62078), "127.0.0.1:62078");
    assert_eq!(DeviceSessionV4::tunnel_address(0), "127.0.0.1:0");
    assert_eq!(DeviceSessionV4::tunnel_address(65535), format!("127.0.0.1:{}", 65535));
}

#[test]
fn install_plist_text() {
    let s = session("u");
    let expected = format!(r#"
<?xml version="1.0" encoding="UTF-8"?>
<plist version="1.0">
<dict>
    <key>Command</key>
    <string>InstallApplication</string>

    <key>PackagePath</key>
    <string>{}</string>

    <key>ClientOptions</key>
    <dict>
        <key>PackageType</key>
        <string>Developer</string>
    </dict>
</dict>
</plist>
"#, "/var/mobile/Media/app.ipa");
    assert_eq!(s.build_install_plist("/var/mobile/Media/app.ipa"), expected);
}

#[test]
fn afc_packet_bytes() {
    let s = session("u");
    let data = [1u8, 2, 3];
    let path = "/tmp/ä";
    let mut expected = Vec::new();
    expected.extend_from_slice(b"AFC_WRITE_SIM\n");
    expected.extend_from_slice(path.as_bytes());
    expected.extend_from_slice(b"\n");
    expected.extend_from_slice(&(data.len() as u32).to_le_bytes());
    expected.extend_from_slice(&data);
    let packet = s.build_afc_write_packet(path, &data);
    assert_eq!(packet, expected);
    assert_eq!(packet.len(), 19 + path.len() + data.len());
    assert_eq!(&packet[packet.len() - 3..], &data);
    let big = vec![0u8; 300];
    let p2 = s.build_afc_write_packet("", &big);
    assert_eq!(&p2[15..19], &[44u8, 1, 0, 0]);
}

#[test]
fn session_manager_tracks_apps() {
    let mut m = SessionManagerV5::new("dev");
    assert_eq!(m.device_udid, "dev");
    assert!(m.session.is_none());
    assert!(!m.connect(None));
    assert!(m.session.is_none());
    assert!(m.connect(Some(session("dev"))));
    assert!(m.session.is_some());
    m.add_app_at("App", "app.ipa", 1_000_000);
    let before = SessionManagerV5::now();
    m.add_app("Live", "live.ipa");
    let after = SessionManagerV5::now();
    assert_eq!(m.apps.len(), 2);
    assert_eq!(m.apps[0].name, "App");
    assert_eq!(m.apps[0].ipa_path, "app.ipa");
    assert_eq!(m.apps[0].install_time, 1_000_000);
    assert_eq!(m.apps[0].expiry_days, 7);
    assert_eq!(m.apps[1].name, "Live");
    assert_eq!(m.apps[1].expiry_days, 7);
    assert!(before <= m.apps[1].install_time && m.apps[1].install_time <= after);
    assert!(before > 1_600_000_000);
}

#[test]
fn expiry_after_six_days() {
    let mut m = SessionManagerV5::new("dev");
    m.add_app_at("a", "a.ipa", 0);
    m.add_app_at("b", "b.ipa", 86_400);
    m.apps.push(TrackedAppV5 {
        name: "c".to_string(),
        ipa_path: "c.ipa".to_string(),
        install_time: 0,
        expiry_days: 1,
    });
    assert_eq!(m.check_expiry_and_refresh(6 * 86_400 - 1), vec![2]);
    assert_eq!(m.check_expiry_and_refresh(6 * 86_400), vec![0, 2]);
    assert_eq!(m.check_expiry_and_refresh(7 * 86_400), vec![0, 1, 2]);
}

#[test]
fn registry_requires_trust_to_connect() {
    let mut core = SignitifyCoreV6::new();
    core.add_device("dev1", "iPhone");
    assert_eq!(core.devices.len(), 1);
    assert!(!core.devices[0].trusted);
    assert!(!core.connection_allowed("dev1"));
    assert!(!core.connect_device("dev1", Some(session("dev1"))));
    assert!(core.sessions.is_empty());
    core.trust_device("dev1");
    assert!(core.devices[0].trusted);
    assert_eq!(core.devices[0].name, "iPhone");
    assert!(core.connection_allowed("dev1"));
    assert!(!core.connect_device("dev1", None));
    assert!(core.sessions.is_empty());
    assert!(core.connect_device("dev1", Some(session("dev1"))));
    assert_eq!(core.sessions.len(), 1);
    assert_eq!(core.sessions[0].device_udid, "dev1");
    assert!(!core.connection_allowed("unknown"));
    assert!(!core.connect_device("unknown", Some(session("unknown"))));
}

#[test]
fn registry_readding_resets_trust() {
    let mut core = SignitifyCoreV6::new();
    core.add_device("dev1", "Old");
    core.trust_device("dev1");
    core.add_device("dev2", "Other");
    core.add_device("dev1", "New");
    assert_eq!(core.devices.len(), 2);
    let d1 = core.devices.iter().find(|d| d.udid == "dev1").unwrap();
    assert_eq!(d1.name, "New");
    assert!(!d1.trusted);
    core.trust_device("missing");
    assert_eq!(core.devices.len(), 2);
}

#[test]
fn registry_installs_through_sessions() {
    let mut core = SignitifyCoreV6::new();
    core.add_device("dev1", "iPhone");
    core.trust_device("dev1");
    core.install_to_device("dev1", "App", "app.ipa");
    assert!(core.sessions.is_empty());
    assert!(core.connect_device("dev1", Some(session("dev1"))));
    core.install_to_device_at("dev1", "App", "app.ipa", 500);
    core.install_to_device("dev1", "Two", "two.ipa");
    assert_eq!(core.sessions[0].apps.len(), 2);
    assert_eq!(core.sessions[0].apps[0].install_time, 500);
    assert_eq!(core.sessions[0].apps[1].name, "Two");
    assert!(core.connect_device("dev1", Some(session("dev1"))));
    assert_eq!(core.sessions.len(), 1);
    assert!(core.sessions[0].apps.is_empty());
}

#[test]
fn daemon_refreshes_expiring_apps() {
    let d = SignitifyDaemonF1;
    let apps = d.load_installed_apps();
    assert_eq!(apps.len(), 1);
    assert_eq!(apps[0].name, "SignitifyDemo");
    assert_eq!(apps[0].ipa_path, "demo.ipa");
    assert_eq!(apps[0].days_left, 3);
    assert!(d.is_expiring_soon(&apps[0]));
    assert_eq!(d.apps_to_refresh(&apps), vec![0]);
    let more = vec![
        TrackedApp { name: "a".into(), ipa_path: "a".into(), days_left: 4 },
        TrackedApp { name: "b".into(), ipa_path: "b".into(), days_left: -2 },
        TrackedApp { name: "c".into(), ipa_path: "c".into(), days_left: 3 },
    ];
    assert_eq!(d.apps_to_refresh(&more), vec![1, 2]);
}

#[test]
fn connect_keeps_the_attempted_session() {
    let mut core = SignitifyCoreV6::new();
    core.add_device("dev1", "iPhone");
    core.trust_device("dev1");
    assert!(core.connect_device("dev1", Some(session("dev1"))));
    assert_eq!(core.sessions[0].session.as_ref().unwrap().udid, "dev1");
}

#[test]
fn install_engine_decisions() {
    assert!(InstallEngineR1::install_proceeds(Some(true)));
    assert!(!InstallEngineR1::install_proceeds(Some(false)));
    assert!(!InstallEngineR1::install_proceeds(None));
    assert!(InstallEngineR1::install_result(Some(true), Some(true)));
    assert!(!InstallEngineR1::install_result(Some(true), Some(false)));
    assert!(!InstallEngineR1::install_result(Some(true), None));
    assert!(!InstallEngineR1::install_result(None, Some(true)));
}

#[test]
fn install_v3_pipeline_result() {
    assert!(install_v3_result(Some(1), Some(2), true, true));
    assert!(!install_v3_result(None, Some(2), true, true));
    assert!(!install_v3_result(Some(1), None, true, true));
    assert!(!install_v3_result(Some(1), Some(2), false, true));
    assert!(!install_v3_result(Some(1), Some(2), true, false));
}

#[test]
fn daemon_demo_identity() {
    let id = SignitifyDaemonF1.demo_identity();
    assert_eq!(id.team_id, "DEMO_TEAM");
    assert_eq!(id.apple_id, "com.signitify.demo");
    assert_eq!(id.certificate_fingerprint, "");
}
