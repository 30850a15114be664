use mstsc_mgr::domain::{AppSettings, KeepAliveInput, SavedConnection, VaultPayload};

fn connection() -> SavedConnection {
    SavedConnection {
        id: 1,
        name: "dev".into(),
        host: "10.0.0.8".into(),
        port: 3389,
        username: "alice".into(),
        password: "secret".into(),
        mstsc_args: vec!["/f".into()],
    }
}

#[test]
fn endpoint_omits_default_port() {
    assert_eq!(connection().endpoint(), "10.0.0.8");
}

#[test]
fn endpoint_includes_custom_port() {
    let mut item = connection();
    item.port = 3390;
    assert_eq!(item.endpoint(), "10.0.0.8:3390");
}

#[test]
fn debug_redacts_password() {
    let debug = connection().redacted_debug();
    assert!(debug.contains("<redacted>"));
    assert!(!debug.contains("secret"));
}

#[test]
fn debug_matches_struct_debug_layout() {
    assert_eq!(
        connection().redacted_debug(),
        "SavedConnection { id: 1, name: \"dev\", host: \"10.0.0.8\", port: 3389, username: \"alice\", password: \"<redacted>\", mstsc_args: [\"/f\"] }"
    );
    let mut item = connection();
    item.mstsc_args = vec![];
    assert!(item.redacted_debug().ends_with("mstsc_args: [] }"));
    item.mstsc_args = vec!["/f".into(), "/multimon".into()];
    assert!(item.redacted_debug().ends_with("mstsc_args: [\"/f\", \"/multimon\"] }"));
}

#[test]
fn credential_target_names_the_host() {
    assert_eq!(connection().credential_target(), "TERMSRV/10.0.0.8");
}

#[test]
fn next_id_is_one_past_the_largest() {
    let mut vault = VaultPayload::default();
    assert_eq!(vault.format_version, 1);
    assert_eq!(vault.next_id(), 1);
    let mut a = connection();
    a.id = 7;
    let mut b = connection();
    b.id = 3;
    vault.connections = vec![a, b];
    assert_eq!(vault.next_id(), 8);
    let mut c = connection();
    c.id = u64::MAX;
    vault.connections.push(c);
    assert_eq!(vault.next_id(), u64::MAX);
}

#[test]
fn default_settings_match_a_fresh_installation() {
    let s = AppSettings::default();
    assert!(s.floating_controller);
    assert!(!s.always_show_tabs);
    assert!(s.global_hotkeys);
    assert!(s.close_to_tray);
    assert!(s.logging_enabled);
    assert!(!s.keepalive_enabled);
    assert_eq!(s.keepalive_interval_seconds, 60);
    assert_eq!(s.keepalive_input, KeepAliveInput::MouseMove);
    assert_eq!(KeepAliveInput::default(), KeepAliveInput::MouseMove);
}

#[test]
fn equality_compares_every_field() {
    assert!(connection() == connection());
    let mut other = connection();
    other.mstsc_args.push("/admin".into());
    assert!(connection() != other);
    let mut other = connection();
    other.password = "x".into();
    assert!(connection() != other);
    let a = VaultPayload { format_version: 1, connections: vec![connection()] };
    let b = VaultPayload { format_version: 1, connections: vec![connection()] };
    assert!(a == b);
    let c = VaultPayload { format_version: 1, connections: vec![] };
    assert!(a != c);
}
