//! Decisions of the main window and of the connection editor: which command
//! a notification is, what the list shows, how the store changes, and how the
//! editor's fields become a profile.
use vstd::prelude::*;
use crate::crypto::{protect_text, protected_text_result, CryptoError};
use crate::domain::endpoint_text;
use crate::model::{ConnectionProfile, ConnectionStore, max_profile_id};
use crate::domain::id_after;
use crate::text::{decimal, is_blank, is_ascii_digit, lemma_decimal_digits, lemma_trim_of_unpadded, strip_plus, parse_u16, push_decimal, trim, trim_str, parse_u16_str};

verus! {

/// Control ids of the main window.
pub const ID_LIST: i32 = 100;
pub const ID_ADD: i32 = 101;
pub const ID_EDIT: i32 = 102;
pub const ID_DELETE: i32 = 103;
pub const ID_CONNECT: i32 = 104;
pub const ID_OPEN_DATA: i32 = 105;

/// Control ids of the connection editor.
pub const ID_NAME: i32 = 201;
pub const ID_HOST: i32 = 202;
pub const ID_PORT: i32 = 203;
pub const ID_USERNAME: i32 = 204;
pub const ID_PASSWORD: i32 = 205;
pub const ID_FULLSCREEN: i32 = 206;
pub const ID_OK: i32 = 207;
pub const ID_CANCEL: i32 = 208;

/// The low 16 bits of a message parameter (`LOWORD`).
pub fn low_word(value: usize) -> (r: u16)
    ensures
        r == value % 0x10000,
{
    let r = (value & 0xffff) as u16;
    assert((value & 0xffff) == value % 0x10000) by (bit_vector);
    r
}

/// Bits 16 to 31 of a message parameter (`HIWORD`).
pub fn high_word(value: usize) -> (r: u16)
    ensures
        r == (value / 0x10000) % 0x10000,
{
    let r = ((value >> 16) & 0xffff) as u16;
    assert(((value >> 16) & 0xffff) == (value / 0x10000) % 0x10000) by (bit_vector);
    r
}

/// A parameter below 2^32 is its high word shifted up, plus its low word.
pub proof fn law_words_recompose(value: usize)
    requires
        value < 0x1_0000_0000,
    ensures
        value == ((value / 0x10000) % 0x10000) * 0x10000 + value % 0x10000,
{
}

/// A command of the main window.
#[derive(Clone, Copy, Debug, PartialEq, Eq, Structural)]
pub enum MainCommand {
    Add,
    Edit,
    Delete,
    Connect,
    OpenDataFolder,
}

/// The command a `WM_COMMAND` notification carries: a click on one of the
/// buttons, or a double click in the list (which connects).
pub open spec fn main_command_of(id: int, notification: int, bn_clicked: int, lbn_dblclk: int) -> Option<MainCommand> {
    if id == ID_ADD && notification == bn_clicked {
        Some(MainCommand::Add)
    } else if id == ID_EDIT && notification == bn_clicked {
        Some(MainCommand::Edit)
    } else if id == ID_DELETE && notification == bn_clicked {
        Some(MainCommand::Delete)
    } else if id == ID_CONNECT && notification == bn_clicked {
        Some(MainCommand::Connect)
    } else if id == ID_OPEN_DATA && notification == bn_clicked {
        Some(MainCommand::OpenDataFolder)
    } else if id == ID_LIST && notification == lbn_dblclk {
        Some(MainCommand::Connect)
    } else {
        None
    }
}

/// Decodes the `WPARAM` of a `WM_COMMAND` sent to the main window: control id
/// in the low word, notification code in the high word.
pub fn main_command(wparam: usize, bn_clicked: i32, lbn_dblclk: i32) -> (r: Option<MainCommand>)
    ensures
        r == main_command_of(
            (wparam % 0x10000) as int,
            ((wparam / 0x10000) % 0x10000) as int,
            bn_clicked as int,
            lbn_dblclk as int,
        ),
{
    let id = low_word(wparam) as i32;
    let notification = high_word(wparam) as i32;
    if id == ID_ADD && notification == bn_clicked {
        Some(MainCommand::Add)
    } else if id == ID_EDIT && notification == bn_clicked {
        Some(MainCommand::Edit)
    } else if id == ID_DELETE && notification == bn_clicked {
        Some(MainCommand::Delete)
    } else if id == ID_CONNECT && notification == bn_clicked {
        Some(MainCommand::Connect)
    } else if id == ID_OPEN_DATA && notification == bn_clicked {
        Some(MainCommand::OpenDataFolder)
    } else if id == ID_LIST && notification == lbn_dblclk {
        Some(MainCommand::Connect)
    } else {
        None
    }
}

/// A command of the connection editor.
#[derive(Clone, Copy, Debug, PartialEq, Eq, Structural)]
pub enum EditorCommand {
    Save,
    Cancel,
}

/// Decodes the `WPARAM` of a `WM_COMMAND` sent to the editor: a click on Save or Cancel.
pub fn editor_command(wparam: usize, bn_clicked: i32) -> (r: Option<EditorCommand>)
    ensures
        ((wparam / 0x10000) % 0x10000) != bn_clicked ==> r is None,
        ((wparam / 0x10000) % 0x10000) == bn_clicked && wparam % 0x10000 == ID_OK ==> r == Some(
            EditorCommand::Save,
        ),
        ((wparam / 0x10000) % 0x10000) == bn_clicked && wparam % 0x10000 == ID_CANCEL ==> r == Some(
            EditorCommand::Cancel,
        ),
        wparam % 0x10000 != ID_OK && wparam % 0x10000 != ID_CANCEL ==> r is None,
{
    let id = low_word(wparam) as i32;
    let notification = high_word(wparam) as i32;
    if notification != bn_clicked {
        return None;
    }
    if id == ID_OK {
        Some(EditorCommand::Save)
    } else if id == ID_CANCEL {
        Some(EditorCommand::Cancel)
    } else {
        None
    }
}

/// The list entry of a profile: name, endpoint and user (`<prompt>` when the
/// user name is blank), separated by four spaces.
pub open spec fn list_line_text(p: ConnectionProfile) -> Seq<char> {
    p.name@ + "    "@ + endpoint_text(p.host@, p.port) + "    "@ + (if is_blank(p.username@) {
        "<prompt>"@
    } else {
        p.username@
    })
}

/// Renders the list entry of a profile.
pub fn list_line(profile: &ConnectionProfile) -> (r: String)
    ensures
        r@ == list_line_text(*profile),
{
    let mut line = profile.name.clone();
    line.append("    ");
    line.append(profile.endpoint().as_str());
    line.append("    ");
    if trim_str(profile.username.as_str()).is_empty() {
        line.append("<prompt>");
    } else {
        line.append(profile.username.as_str());
    }
    line
}

/// The status line after the list is refreshed: `<count> saved connection(s)`.
pub fn count_status(count: usize) -> (r: String)
    ensures
        r@ == decimal(count as nat) + " saved connection(s)"@,
{
    let mut s = String::new();
    push_decimal(&mut s, count as u64);
    s.append(" saved connection(s)");
    s
}

/// The status line after a launch: `Launched <endpoint>`.
pub fn launched_status(profile: &ConnectionProfile) -> (r: String)
    ensures
        r@ == "Launched "@ + endpoint_text(profile.host@, profile.port),
{
    let mut s = String::from_str("Launched ");
    s.append(profile.endpoint().as_str());
    s
}

/// The selected list position from the list box's answer: none for the
/// error value (no selection) or a negative answer.
pub fn selection_from(index: isize, lb_err: isize) -> (r: Option<usize>)
    ensures
        index == lb_err || index < 0 ==> r is None,
        index != lb_err && index >= 0 ==> r == Some(index as usize),
{
    if index == lb_err || index < 0 {
        None
    } else {
        Some(index as usize)
    }
}

/// Appends a new profile to the store.
pub fn add_profile(store: &mut ConnectionStore, profile: ConnectionProfile)
    ensures
        final(store).connections@ == old(store).connections@.push(profile),
        final(store).format_version == old(store).format_version,
{
    store.connections.push(profile);
}

/// Replaces the profile at `index`; nothing changes when there is none.
pub fn replace_profile(store: &mut ConnectionStore, index: usize, profile: ConnectionProfile) -> (r: bool)
    ensures
        r == (index < old(store).connections@.len()),
        r ==> final(store).connections@ == old(store).connections@.update(index as int, profile),
        !r ==> final(store).connections@ == old(store).connections@,
        final(store).format_version == old(store).format_version,
{
    if index < store.connections.len() {
        store.connections.set(index, profile);
        true
    } else {
        false
    }
}

/// Removes the profile at `index`; nothing changes when there is none.
pub fn remove_profile(store: &mut ConnectionStore, index: usize) -> (r: bool)
    ensures
        r == (index < old(store).connections@.len()),
        r ==> final(store).connections@ == old(store).connections@.remove(index as int),
        !r ==> final(store).connections@ == old(store).connections@,
        final(store).format_version == old(store).format_version,
{
    if index < store.connections.len() {
        store.connections.remove(index);
        true
    } else {
        false
    }
}

/// No two profiles of `cs` share an id.
pub open spec fn ids_distinct(cs: Seq<ConnectionProfile>) -> bool {
    forall|i: int, j: int| 0 <= i < j < cs.len() ==> #[trigger] cs[i].id != #[trigger] cs[j].id
}

/// Adding a profile under the store's next id keeps the ids distinct, as long
/// as the largest id is below `u64::MAX`.
pub proof fn law_next_id_keeps_ids_distinct(cs: Seq<ConnectionProfile>, p: ConnectionProfile)
    requires
        ids_distinct(cs),
        max_profile_id(cs) < u64::MAX,
        p.id == id_after(max_profile_id(cs)),
    ensures
        ids_distinct(cs.push(p)),
{
    crate::model::lemma_max_profile_id_bounds(cs);
    let s = cs.push(p);
    assert forall|i: int, j: int| 0 <= i < j < s.len() implies #[trigger] s[i].id != #[trigger] s[j].id by {
        if j == cs.len() {
            assert(s[i] == cs[i]);
            assert(cs[i].id <= max_profile_id(cs));
        } else {
            assert(s[i] == cs[i] && s[j] == cs[j]);
        }
    }
}

/// The texts shown when the editor opens.
pub struct EditorFields {
    pub name: String,
    pub host: String,
    pub port: String,
    pub username: String,
    /// The "leave password blank to keep existing" hint, shown when editing.
    pub keep_password_hint: bool,
    pub fullscreen: bool,
}

/// What the editor shows: the profile's values when editing, empty fields and
/// port 3389 for a new profile. The password field always starts empty.
pub fn editor_fields(editing: Option<&ConnectionProfile>) -> (r: EditorFields)
    ensures
        editing is None ==> r.name@.len() == 0 && r.host@.len() == 0 && r.port@ == "3389"@
            && r.username@.len() == 0 && !r.keep_password_hint && !r.fullscreen,
        editing matches Some(p) ==> r.name@ == p.name@ && r.host@ == p.host@ && r.port@
            == decimal(p.port as nat) && r.username@ == p.username@ && r.keep_password_hint
            && r.fullscreen == p.fullscreen,
{
    match editing {
        None => EditorFields {
            name: String::new(),
            host: String::new(),
            port: String::from_str("3389"),
            username: String::new(),
            keep_password_hint: false,
            fullscreen: false,
        },
        Some(p) => {
            let mut port = String::new();
            push_decimal(&mut port, p.port as u64);
            EditorFields {
                name: p.name.clone(),
                host: p.host.clone(),
                port,
                username: p.username.clone(),
                keep_password_hint: true,
                fullscreen: p.fullscreen,
            }
        },
    }
}

/// The outcome of the editor: the edited profile and, when the password
/// field was filled, the new password to protect.
pub struct EditorResult {
    pub profile: ConnectionProfile,
    pub password_changed_to: Option<String>,
}

/// Why the editor's fields were refused.
#[derive(Clone, Copy, Debug, PartialEq, Eq, Structural)]
pub enum EditorError {
    /// The host is blank.
    HostRequired,
    /// The port is not a number from 1 to 65535.
    InvalidPort,
}

/// The port the editor accepts: a `u16` other than 0.
pub open spec fn accepted_port(port_text: Seq<char>) -> Option<u16> {
    match parse_u16(trim(port_text)) {
        Some(p) => if p != 0 { Some(p) } else { None },
        None => None,
    }
}

/// The profile that Save produces from the editor's fields.
pub open spec fn edited_profile(
    p: ConnectionProfile,
    editing: Option<ConnectionProfile>,
    new_id: u64,
    name: Seq<char>,
    host: Seq<char>,
    port: u16,
    username: Seq<char>,
    fullscreen: bool,
) -> bool {
    &&& p.id == (match editing {
        Some(o) => o.id,
        None => new_id,
    })
    &&& p.name@ == (if trim(name).len() == 0 { trim(host) } else { trim(name) })
    &&& p.host@ == trim(host)
    &&& p.port == port
    &&& p.username@ == trim(username)
    &&& p.protected_password@ == (match editing {
        Some(o) => o.protected_password@,
        None => Seq::empty(),
    })
    &&& p.fullscreen == fullscreen
}

/// Validates the editor's fields (Save): the host must not be blank and the
/// port must be 1 to 65535. The name defaults to the host; an edited profile
/// keeps its id and stored password; a filled password field is returned to
/// be protected.
pub fn editor_result(
    editing: Option<&ConnectionProfile>,
    new_id: u64,
    name: &str,
    host: &str,
    port: &str,
    username: &str,
    password: &str,
    fullscreen: bool,
) -> (r: Result<EditorResult, EditorError>)
    ensures
        is_blank(host@) ==> r == Err::<EditorResult, EditorError>(EditorError::HostRequired),
        !is_blank(host@) && accepted_port(port@) is None ==> r == Err::<EditorResult, EditorError>(
            EditorError::InvalidPort,
        ),
        !is_blank(host@) && accepted_port(port@) is Some ==> (r matches Ok(res) && edited_profile(
            res.profile,
            match editing {
                Some(o) => Some(*o),
                None => None,
            },
            new_id,
            name@,
            host@,
            accepted_port(port@)->0,
            username@,
            fullscreen,
        ) && (password@.len() == 0 ==> res.password_changed_to is None) && (password@.len() > 0
            ==> (res.password_changed_to matches Some(pw) && pw@ == password@))),
{
    let name = trim_str(name);
    let host = trim_str(host);
    let username = trim_str(username);
    if host.is_empty() {
        return Err(EditorError::HostRequired);
    }
    let port = match parse_u16_str(trim_str(port)) {
        Some(p) => {
            if p == 0 {
                return Err(EditorError::InvalidPort);
            }
            p
        },
        None => return Err(EditorError::InvalidPort),
    };
    let id = match editing {
        Some(o) => o.id,
        None => new_id,
    };
    let protected_password = match editing {
        Some(o) => o.protected_password.clone(),
        None => String::new(),
    };
    let profile = ConnectionProfile {
        id,
        name: if name.is_empty() { String::from_str(host) } else { String::from_str(name) },
        host: String::from_str(host),
        port,
        username: String::from_str(username),
        protected_password,
        fullscreen,
    };
    let password_changed_to = if password.is_empty() { None } else { Some(String::from_str(password)) };
    Ok(EditorResult { profile, password_changed_to })
}

/// `a` and `b` agree on everything but the stored password.
pub open spec fn same_but_password(a: ConnectionProfile, b: ConnectionProfile) -> bool {
    &&& a.id == b.id
    &&& a.name == b.name
    &&& a.host == b.host
    &&& a.port == b.port
    &&& a.username == b.username
    &&& a.fullscreen == b.fullscreen
}

/// What an edit ends with, for a given outcome of protecting the new
/// password: the profile with the protected text stored, or the error.
pub open spec fn stored_edit(r: Result<ConnectionProfile, CryptoError>) -> Result<Seq<char>, CryptoError> {
    match r {
        Ok(p) => Ok(p.protected_password@),
        Err(e) => Err(e),
    }
}

/// Completes an edit: a new password is protected with `service` exactly as
/// `protect_text` does and the stored text replaces the profile's protected
/// password; without one, the profile is returned as is. Only a failure to
/// protect gives an error.
pub fn finish_editor<F>(result: EditorResult, service: F) -> (r: Result<ConnectionProfile, CryptoError>)
    where
        F: Fn(&[u8]) -> Option<Vec<u8>>,
    requires
        forall|b: &[u8]| #[trigger] call_requires(service, (b,)),
    ensures
        result.password_changed_to is None ==> r == Ok::<ConnectionProfile, CryptoError>(result.profile),
        result.password_changed_to matches Some(pw) ==> protected_text_result(service, pw@, stored_edit(r)),
        r matches Ok(p) ==> same_but_password(p, result.profile),
{
    let mut profile = result.profile;
    match result.password_changed_to {
        None => Ok(profile),
        Some(password) => match protect_text(password.as_str(), service) {
            Err(e) => Err(e),
            Ok(protected) => {
                profile.protected_password = protected;
                Ok(profile)
            },
        },
    }
}


/// Deleting the profile just added gives back the profiles as they were.
pub proof fn law_delete_undoes_add(cs: Seq<ConnectionProfile>, p: ConnectionProfile)
    ensures
        cs.push(p).remove(cs.len() as int) == cs,
{
    assert(cs.push(p).remove(cs.len() as int) =~= cs);
}

/// Replacing a profile changes that position only.
pub proof fn law_replace_touches_one_position(cs: Seq<ConnectionProfile>, index: int, p: ConnectionProfile)
    requires
        0 <= index < cs.len(),
    ensures
        cs.update(index, p).len() == cs.len(),
        cs.update(index, p)[index] == p,
        forall|k: int| 0 <= k < cs.len() && k != index ==> #[trigger] cs.update(index, p)[k] == cs[k],
{
}

/// A click on each button of the main window gives that button's command:
/// Add (101), Edit (102), Delete (103), Connect (104), Open data folder (105);
/// a double click in the list (100) connects; any other control gives
/// nothing. The control id is the low word of `WPARAM`, the notification the
/// high word.
pub proof fn law_each_button_gives_its_command(wparam: usize, bn_clicked: int, lbn_dblclk: int)
    ensures
        ({
            let id = (wparam % 0x10000) as int;
            let n = ((wparam / 0x10000) % 0x10000) as int;
            let c = main_command_of(id, n, bn_clicked, lbn_dblclk);
            &&& id == 101 && n == bn_clicked ==> c == Some(MainCommand::Add)
            &&& id == 102 && n == bn_clicked ==> c == Some(MainCommand::Edit)
            &&& id == 103 && n == bn_clicked ==> c == Some(MainCommand::Delete)
            &&& id == 104 && n == bn_clicked ==> c == Some(MainCommand::Connect)
            &&& id == 105 && n == bn_clicked ==> c == Some(MainCommand::OpenDataFolder)
            &&& id == 100 && n == lbn_dblclk ==> c == Some(MainCommand::Connect)
            &&& !(100 <= id <= 105) ==> c is None
            &&& 101 <= id <= 105 && n != bn_clicked ==> c is None
        }),
{
}

/// Saving the editor: the profile's name is the trimmed name field when it
/// is not blank, and the host only when it is; the host, user name and port
/// are the trimmed fields and the accepted port; an edited profile keeps its
/// id and stored password, a new one takes the new id and stores none.
pub proof fn law_saved_profile_takes_the_fields(
    p: ConnectionProfile,
    editing: Option<ConnectionProfile>,
    new_id: u64,
    name: Seq<char>,
    host: Seq<char>,
    port: u16,
    username: Seq<char>,
    fullscreen: bool,
)
    requires
        edited_profile(p, editing, new_id, name, host, port, username, fullscreen),
    ensures
        trim(name).len() > 0 ==> p.name@ == trim(name),
        trim(name).len() == 0 ==> p.name@ == p.host@,
        p.host@ == trim(host),
        p.username@ == trim(username),
        p.port == port,
        p.fullscreen == fullscreen,
        editing matches Some(o) ==> p.id == o.id && p.protected_password@ == o.protected_password@,
        editing is None ==> p.id == new_id && p.protected_password@.len() == 0,
{
}

/// The editor accepts exactly the ports 1 to 65535, typed in decimal, and
/// stores the number typed.
pub proof fn law_typed_port_is_accepted(n: nat)
    ensures
        1 <= n <= 65535 ==> accepted_port(decimal(n)) == Some(n as u16),
        n == 0 || n > 65535 ==> accepted_port(decimal(n)) is None,
{
    lemma_decimal_digits(n);
    let d = decimal(n);
    assert(is_ascii_digit(d[0]));
    assert(is_ascii_digit(d.last()));
    lemma_trim_of_unpadded(d);
    assert(strip_plus(d) == d);
}

} // verus!
