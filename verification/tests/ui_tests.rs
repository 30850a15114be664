use mstsc_mgr::model::{ConnectionProfile, ConnectionStore};
use mstsc_mgr::ui::{
    add_profile, count_status, editor_command, editor_fields, editor_result, finish_editor,
    high_word, launched_status, list_line, low_word, main_command, remove_profile,
    replace_profile, selection_from, EditorCommand, EditorError, MainCommand, ID_ADD, ID_CANCEL,
    ID_LIST, ID_OK,
};

const BN_CLICKED: i32 = 0;
const LBN_DBLCLK: i32 = 2;

fn profile(id: u64) -> ConnectionProfile {
    ConnectionProfile {
        id,
        name: "box".to_string(),
        host: "10.0.0.8".to_string(),
        port: 3389,
        username: String::new(),
        protected_password: "AAAA".to_string(),
        fullscreen: false,
    }
}

#[test]
fn words_split_a_parameter() {
    assert_eq!(low_word(0x0002_0065), 0x65);
    assert_eq!(high_word(0x0002_0065), 2);
    assert_eq!(low_word(0xffff_ffff), 0xffff);
    assert_eq!(high_word(0xffff_ffff), 0xffff);
}

#[test]
fn main_commands_are_decoded() {
    assert_eq!(main_command(ID_ADD as usize, BN_CLICKED, LBN_DBLCLK), Some(MainCommand::Add));
    assert_eq!(main_command(104, BN_CLICKED, LBN_DBLCLK), Some(MainCommand::Connect));
    assert_eq!(main_command(105, BN_CLICKED, LBN_DBLCLK), Some(MainCommand::OpenDataFolder));
    assert_eq!(main_command((2 << 16) | ID_LIST as usize, BN_CLICKED, LBN_DBLCLK), Some(MainCommand::Connect));
    assert_eq!(main_command(ID_LIST as usize, BN_CLICKED, LBN_DBLCLK), None);
    assert_eq!(main_command((5 << 16) | ID_ADD as usize, BN_CLICKED, LBN_DBLCLK), None);
    assert_eq!(editor_command(ID_OK as usize, BN_CLICKED), Some(EditorCommand::Save));
    assert_eq!(editor_command(ID_CANCEL as usize, BN_CLICKED), Some(EditorCommand::Cancel));
    assert_eq!(editor_command((1 << 16) | ID_OK as usize, BN_CLICKED), None);
}

#[test]
fn list_and_status_texts() {
    let mut p = profile(1);
    assert_eq!(list_line(&p), "box    10.0.0.8    <prompt>");
    p.username = "alice".to_string();
    p.port = 3390;
    assert_eq!(list_line(&p), "box    10.0.0.8:3390    alice");
    assert_eq!(count_status(3), "3 saved connection(s)");
    assert_eq!(launched_status(&p), "Launched 10.0.0.8:3390");
}

#[test]
fn selection_ignores_errors() {
    assert_eq!(selection_from(-1, -1), None);
    assert_eq!(selection_from(-5, -1), None);
    assert_eq!(selection_from(2, -1), Some(2));
}

#[test]
fn store_edits() {
    let mut store = ConnectionStore::default();
    assert_eq!(store.format_version, 1);
    add_profile(&mut store, profile(1));
    let next = store.next_id();
    add_profile(&mut store, profile(next));
    assert_eq!(store.connections[1].id, 2);
    assert!(replace_profile(&mut store, 0, profile(9)));
    assert_eq!(store.connections[0].id, 9);
    assert!(!replace_profile(&mut store, 5, profile(10)));
    assert!(remove_profile(&mut store, 0));
    assert_eq!(store.connections.len(), 1);
    assert!(!remove_profile(&mut store, 1));
    assert_eq!(store.next_id(), 3);
}

#[test]
fn editor_starts_from_the_profile() {
    let f = editor_fields(None);
    assert_eq!((f.name.as_str(), f.host.as_str(), f.port.as_str()), ("", "", "3389"));
    assert!(!f.keep_password_hint);
    let mut p = profile(4);
    p.port = 22;
    p.fullscreen = true;
    let f = editor_fields(Some(&p));
    assert_eq!(f.port, "22");
    assert!(f.keep_password_hint && f.fullscreen);
}

#[test]
fn editor_validation() {
    let new = editor_result(None, 5, "  ", " host ", " +3390 ", " bob ", "pw", true).unwrap();
    assert_eq!(new.profile.id, 5);
    assert_eq!(new.profile.name, "host");
    assert_eq!(new.profile.host, "host");
    assert_eq!(new.profile.port, 3390);
    assert_eq!(new.profile.username, "bob");
    assert_eq!(new.profile.protected_password, "");
    assert_eq!(new.password_changed_to.as_deref(), Some("pw"));
    let orig = profile(9);
    let edited = editor_result(Some(&orig), 5, "n", "h", "3389", "", "", false).unwrap();
    assert_eq!(edited.profile.id, 9);
    assert_eq!(edited.profile.protected_password, "AAAA");
    assert!(edited.password_changed_to.is_none());
    assert!(matches!(editor_result(None, 1, "", "   ", "1", "", "", false), Err(EditorError::HostRequired)));
    for bad in ["0", "65536", "", "-1", "+", "12a", "1 2"] {
        assert!(matches!(editor_result(None, 1, "", "h", bad, "", "", false), Err(EditorError::InvalidPort)), "{bad}");
    }
    assert_eq!(editor_result(None, 1, "", "h", "65535", "", "", false).unwrap().profile.port, 65535);
    assert_eq!(editor_result(None, 1, "", "h", "007", "", "", false).unwrap().profile.port, 7);
}

#[test]
fn finishing_the_editor_protects_a_new_password() {
    let identity = |b: &[u8]| Some(b.to_vec());
    let r = editor_result(None, 1, "", "h", "1", "", "pw", false).unwrap();
    let p = finish_editor(r, identity).unwrap();
    assert_eq!(p.protected_password, "cHc=");
    let r = editor_result(Some(&profile(2)), 1, "", "h", "1", "", "", false).unwrap();
    let p = finish_editor(r, |_| None).unwrap();
    assert_eq!(p.protected_password, "AAAA");
    let r = editor_result(None, 1, "", "h", "1", "", "pw", false).unwrap();
    assert!(finish_editor(r, |_| None).is_err());
}
