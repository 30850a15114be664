use mstsc_mgr::domain::SavedConnection;
use mstsc_mgr::rdp_launch::{
    build_rdp_content, credential_request, prepare_connection_launch, sanitized_mstsc_args,
    ConnectionLaunchError,
};

fn connection() -> SavedConnection {
    SavedConnection {
        id: 7,
        name: "test".to_string(),
        host: "10.0.0.8".to_string(),
        port: 3390,
        username: "DOMAIN\\user".to_string(),
        password: "must-not-be-written".to_string(),
        mstsc_args: vec![
            "/f".to_string(),
            "/v:wrong-host".to_string(),
            "/prompt".to_string(),
        ],
    }
}

#[test]
fn rdp_content_uses_saved_credentials_without_embedding_password() {
    let profile = connection();
    let content = build_rdp_content(&profile, true);
    assert!(content.contains("full address:s:10.0.0.8:3390"));
    assert!(content.contains("username:s:DOMAIN\\user"));
    assert!(content.contains("prompt for credentials:i:0"));
    assert!(content.contains("promptcredentialonce:i:1"));
    assert!(content.contains("enablecredsspsupport:i:1"));
    assert!(!content.contains("must-not-be-written"));
}

#[test]
fn rdp_content_keeps_prompt_for_profiles_without_saved_password() {
    let mut profile = connection();
    profile.password.clear();
    let content = build_rdp_content(&profile, false);
    assert!(content.contains("prompt for credentials:i:1"));
}

#[test]
fn conflicting_command_line_args_are_removed() {
    let profile = connection();
    let args = sanitized_mstsc_args(&profile, true);
    assert_eq!(args, vec!["/f"]);
}

#[test]
fn args_are_trimmed_and_case_folded() {
    let mut c = connection();
    c.mstsc_args = vec![
        "  /multimon ".to_string(),
        "   ".to_string(),
        "/V:other".to_string(),
        " /PROMPT".to_string(),
        "/promptx".to_string(),
    ];
    assert_eq!(sanitized_mstsc_args(&c, true), vec!["/multimon", "/promptx"]);
    assert_eq!(sanitized_mstsc_args(&c, false), vec!["/multimon", "/PROMPT", "/promptx"]);
}

#[test]
fn credential_request_is_utf16() {
    let mut c = connection();
    c.host = "h".to_string();
    c.username = "u".to_string();
    c.password = "p\u{e9}".to_string();
    let req = credential_request(&c).unwrap();
    assert_eq!(req.target, "TERMSRV/h\0".encode_utf16().collect::<Vec<u16>>());
    assert_eq!(req.username, vec![0x75, 0]);
    assert_eq!(req.password, vec![0x70, 0xe9]);
    assert_eq!(req.blob_size, 4);
}

#[test]
fn launch_with_and_without_saved_credentials() {
    let c = connection();
    let launch = prepare_connection_launch(&c).unwrap();
    assert!(launch.credential.is_some());
    assert_eq!(launch.file_name, "mstsc-mgr-connection-7.rdp");
    assert_eq!(launch.args, vec!["/f"]);
    let mut d = connection();
    d.username = "  ".to_string();
    let launch = prepare_connection_launch(&d).unwrap();
    assert!(launch.credential.is_none());
    assert_eq!(launch.args, vec!["/f", "/prompt"]);
    d.host = " ".to_string();
    assert!(matches!(prepare_connection_launch(&d), Err(ConnectionLaunchError::HostRequired)));
}

#[test]
fn sanitizing_twice_changes_nothing() {
    let mut c = connection();
    c.mstsc_args = vec![" /f ".to_string(), "/V:x".to_string(), "  ".to_string(), "/Prompt".to_string(), "\u{a0}/w:800".to_string()];
    let once = sanitized_mstsc_args(&c, true);
    assert_eq!(once, vec!["/f".to_string(), "/w:800".to_string()]);
    let mut again = c.clone();
    again.mstsc_args = once.clone();
    assert_eq!(sanitized_mstsc_args(&again, true), once);
}
