use mstsc_mgr::config::{check_vault, load_vault, settings_or_default, UnsupportedVersion};
use mstsc_mgr::domain::{AppSettings, VaultPayload};
use mstsc_mgr::model::{ConnectionProfile, ConnectionStore};
use mstsc_mgr::ui::add_profile;
use mstsc_mgr::platform::{connect_host, connect_plan, credential_target, delete_credential_target, ConnectError};
use mstsc_mgr::platform_actions::frame_style_fix;
use mstsc_mgr::storage::{load_profiles, StoredProfiles};
use mstsc_mgr::text::{to_hex_upper, trim_str, wide_null};

#[test]
fn direct_connection_plan() {
    assert_eq!(credential_target("srv"), "TERMSRV/srv");
    assert_eq!(connect_host("  srv "), Ok("srv".to_string()));
    assert_eq!(connect_host(" \u{3000}"), Err(ConnectError::HostRequired));
    let plan = connect_plan("srv", " bob ", "pw").ok().unwrap();
    assert_eq!(plan.mstsc_arg, "/v:srv");
    assert_eq!(plan.credential.username, vec![0x62, 0x6f, 0x62, 0]);
    assert_eq!(plan.credential.blob_size, 4);
    assert!(matches!(connect_plan("srv", "  ", "pw"), Err(ConnectError::UsernameRequired)));
    assert!(matches!(connect_plan("srv", "bob", ""), Err(ConnectError::PasswordRequired)));
    assert_eq!(delete_credential_target("  "), None);
    assert_eq!(delete_credential_target(" h "), Some(wide_null("TERMSRV/h")));
}

#[test]
fn frame_style_is_repaired() {
    assert_eq!(frame_style_fix(0x00CF_0000, 0x00CF_0000), None);
    assert_eq!(frame_style_fix(0x1000_0000, 0x00CF_0000), Some(0x10CF_0000));
}

#[test]
fn stored_versions_are_checked() {
    assert_eq!(settings_or_default(None), AppSettings::default());
    let v = check_vault(VaultPayload { format_version: 2, connections: vec![] });
    assert_eq!(v.err(), Some(UnsupportedVersion(2)));
    assert!(check_vault(VaultPayload::default()).is_ok());
    assert_eq!(load_vault(None).unwrap().format_version, 1);
    assert!(load_profiles(StoredProfiles::Missing).unwrap().connections.is_empty());
    assert!(load_profiles(StoredProfiles::Empty).is_ok());
    assert_eq!(load_profiles(StoredProfiles::Missing).unwrap().format_version, 1);
    assert_eq!(load_profiles(StoredProfiles::Empty).unwrap().format_version, 1);
    let mut s = ConnectionStore::default();
    s.format_version = 0;
    assert_eq!(load_profiles(StoredProfiles::Parsed(s)).err(), Some(UnsupportedVersion(0)));
}

#[test]
fn text_helpers() {
    assert_eq!(trim_str("\u{a0} x y \t\r\n"), "x y");
    assert_eq!(trim_str("   "), "");
    assert_eq!(to_hex_upper(&[0x00, 0x0f, 0xa5, 0xff]), "000FA5FF");
    assert_eq!(wide_null("\u{1F600}"), vec![0xD83D, 0xDE00, 0]);
}

#[test]
fn new_store_with_a_profile_is_read_back() {
    let mut store = load_profiles(StoredProfiles::Missing).unwrap();
    let id = store.next_id();
    add_profile(
        &mut store,
        ConnectionProfile {
            id,
            name: "lab".to_string(),
            host: "10.0.0.8".to_string(),
            port: 3389,
            username: String::new(),
            protected_password: String::new(),
            fullscreen: false,
        },
    );
    let saved = store.clone();
    let reloaded = load_profiles(StoredProfiles::Parsed(saved)).unwrap();
    assert_eq!(reloaded.connections, store.connections);
    assert_eq!(reloaded.connections[0].id, 1);
}
