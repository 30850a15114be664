use mstsc_mgr::mstsc::{
    build_rdp_content, launch_plan, prepare_launch, rdp_file_bytes, rdp_file_name,
    split_domain_username, LaunchError,
};
use mstsc_mgr::crypto::CryptoError;
use mstsc_mgr::model::ConnectionProfile;

fn profile() -> ConnectionProfile {
    ConnectionProfile {
        id: 7,
        name: "test".to_string(),
        host: "10.0.0.8".to_string(),
        port: 3390,
        username: "DOMAIN\\user".to_string(),
        protected_password: "must-not-be-written".to_string(),
        fullscreen: true,
    }
}

#[test]
fn rdp_content_matches_compatibility_settings_and_embeds_password() {
    let content = build_rdp_content(&profile(), Some("010203AABB"));
    assert!(content.contains("full address:s:10.0.0.8:3390"));
    assert!(content.contains("username:s:user"));
    assert!(content.contains("domain:s:DOMAIN"));
    assert!(content.contains("password 51:b:010203AABB"));
    assert!(content.contains("authentication level:i:0"));
    assert!(content.contains("enablecredsspsupport:i:1"));
    assert!(content.contains("prompt for credentials:i:0"));
    assert!(content.contains("public mode:i:0"));
    assert!(content.contains("screen mode id:i:2"));
    assert!(!content.contains("must-not-be-written"));
}

#[test]
fn username_without_domain_is_kept_as_is() {
    let mut profile = profile();
    profile.username = "local-user".to_string();
    let content = build_rdp_content(&profile, None);
    assert!(content.contains("username:s:local-user"));
    assert!(!content.contains("domain:s:"));
    assert!(!content.contains("password 51:b:"));
}

#[test]
fn rdp_content_is_exact() {
    let mut p = profile();
    p.fullscreen = false;
    p.port = 3389;
    assert_eq!(
        build_rdp_content(&p, Some("")),
        "full address:s:10.0.0.8\r\nusername:s:user\r\nscreen mode id:i:1\r\nprompt for credentials:i:0\r\npromptcredentialonce:i:1\r\nauthentication level:i:0\r\nenablecredsspsupport:i:1\r\nnegotiate security layer:i:1\r\npublic mode:i:0\r\nautoreconnection enabled:i:1\r\ndomain:s:DOMAIN\r\n"
    );
}

#[test]
fn domain_split_needs_both_parts() {
    assert_eq!(split_domain_username("CORP\\bob"), (Some("CORP"), "bob"));
    assert_eq!(split_domain_username("CORP\\bob\\x"), (Some("CORP"), "bob\\x"));
    assert_eq!(split_domain_username("\\bob"), (None, "\\bob"));
    assert_eq!(split_domain_username("CORP\\"), (None, "CORP\\"));
    assert_eq!(split_domain_username("bob"), (None, "bob"));
}

#[test]
fn rdp_file_is_utf16le_with_bom() {
    assert_eq!(rdp_file_bytes("A\u{e9}"), vec![0xff, 0xfe, 0x41, 0x00, 0xe9, 0x00]);
    assert_eq!(rdp_file_bytes("\u{1F600}"), vec![0xff, 0xfe, 0x3d, 0xd8, 0x00, 0xde]);
    assert_eq!(rdp_file_name(7), "mstsc-mgr-external-7.rdp");
}

#[test]
fn blank_host_is_refused() {
    let mut p = profile();
    p.host = "  \t".to_string();
    assert!(matches!(launch_plan(&p, None), Err(LaunchError::HostRequired)));
}

fn xor(bytes: &[u8]) -> Option<Vec<u8>> {
    Some(bytes.iter().map(|b| b ^ 0x5a).collect())
}

#[test]
fn launch_without_stored_password_skips_the_service() {
    let mut p = profile();
    p.protected_password = String::new();
    let plan = prepare_launch(&p, |_| panic!("no service call"), |_| panic!("no service call")).unwrap();
    assert_eq!(plan.file_name, "mstsc-mgr-external-7.rdp");
    let expected = rdp_file_bytes(&build_rdp_content(&p, None));
    assert_eq!(plan.file_bytes, expected);
}

#[test]
fn launch_embeds_reprotected_password() {
    let mut p = profile();
    // "secret" protected by the XOR service, then Base64.
    p.protected_password = mstsc_mgr::crypto::protect_text("pw", xor).unwrap();
    let plan = prepare_launch(&p, xor, xor).unwrap();
    let field = mstsc_mgr::crypto::protect_rdp_password("pw", xor).unwrap();
    assert_eq!(field, "2A5A2D5A");
    assert_eq!(plan.file_bytes, rdp_file_bytes(&build_rdp_content(&p, Some(&field))));
}

#[test]
fn launch_reports_service_failure() {
    let p = profile();
    let r = prepare_launch(&p, |_| None, xor);
    assert!(matches!(r, Err(LaunchError::Password(CryptoError::InvalidBase64))));
    let mut q = profile();
    q.protected_password = mstsc_mgr::crypto::protect_text("pw", xor).unwrap();
    let r = prepare_launch(&q, |_| None, xor);
    assert!(matches!(r, Err(LaunchError::Password(CryptoError::UnprotectFailed))));
    let r = prepare_launch(&q, xor, |_| None);
    assert!(matches!(r, Err(LaunchError::Password(CryptoError::ProtectFailed))));
}

#[test]
fn launch_refuses_an_empty_recovered_blob() {
    let mut p = profile();
    p.protected_password = "AAAA".to_string();
    let r = prepare_launch(&p, |_| Some(Vec::new()), |_| panic!("no protect call")).err();
    assert_eq!(r, Some(LaunchError::Password(CryptoError::EmptyBlob)));
    p.protected_password = "AA==".to_string();
    let r = prepare_launch(&p, |_| Some(vec![0xff]), |_| panic!("no protect call")).err();
    assert_eq!(r, Some(LaunchError::Password(CryptoError::InvalidUtf8)));
}

#[test]
fn launch_hands_the_services_the_decoded_blob_and_utf16le() {
    let mut p = profile();
    p.protected_password = "cHc=".to_string();
    let plan = prepare_launch(
        &p,
        |b: &[u8]| {
            assert_eq!(b, b"pw");
            Some(b"secret".to_vec())
        },
        |b: &[u8]| {
            assert_eq!(b, &[b's', 0, b'e', 0, b'c', 0, b'r', 0, b'e', 0, b't', 0]);
            Some(vec![0xab])
        },
    )
    .unwrap();
    assert_eq!(plan.file_bytes, rdp_file_bytes(&build_rdp_content(&p, Some("AB"))));
}
