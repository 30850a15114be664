//! Launching a saved connection: the dedicated `.rdp` profile, the cleaned
//! `mstsc.exe` arguments and the Credential Manager entry written beforehand.
use vstd::prelude::*;
use crate::domain::{credential_target_text, endpoint_text, texts, SavedConnection};
use crate::mstsc::{rdp_file_bytes, rdp_file_bytes_of};
use crate::text::{
    has_line, decimal, eq_ignore_ascii_case, is_blank, lemma_trim_idempotent, push_decimal, starts_with_ascii_case_insensitive,
    starts_with_ignore_ascii_case, str_eq_ignore_ascii_case, trim, trim_str, utf16, utf16_units,
    wide_null, wide_null_units,
};

verus! {

/// A connection has saved credentials when its user name is not blank and its
/// password is not empty.
pub open spec fn has_saved_credentials(c: SavedConnection) -> bool {
    !is_blank(c.username@) && c.password@.len() > 0
}

/// `has_saved_credentials`, computed.
pub fn saved_credentials(connection: &SavedConnection) -> (r: bool)
    ensures
        r == has_saved_credentials(*connection),
{
    !trim_str(connection.username.as_str()).is_empty() && !connection.password.as_str().is_empty()
}

/// The `.rdp` profile of a saved connection. The password is never written:
/// MSTSC reads it from the Credential Manager, and only prompts for
/// credentials when none are saved.
pub open spec fn connection_rdp_content(c: SavedConnection, saved: bool) -> Seq<char> {
    "full address:s:"@ + endpoint_text(c.host@, c.port) + "\r\n"@ + "username:s:"@ + c.username@
        + "\r\n"@ + "prompt for credentials:i:"@ + decimal(if saved { 0nat } else { 1nat })
        + "\r\n"@
        + "promptcredentialonce:i:1\r\nenablecredsspsupport:i:1\r\nnegotiate security layer:i:1\r\nautoreconnection enabled:i:1\r\n"@
}

/// Builds the `.rdp` profile of `connection`.
pub fn build_rdp_content(connection: &SavedConnection, has_saved_credentials: bool) -> (r: String)
    ensures
        r@ == connection_rdp_content(*connection, has_saved_credentials),
{
    let mut content = String::from_str("full address:s:");
    content.append(connection.endpoint().as_str());
    content.append("\r\n");
    content.append("username:s:");
    content.append(connection.username.as_str());
    content.append("\r\n");
    content.append("prompt for credentials:i:");
    push_decimal(&mut content, if has_saved_credentials { 0 } else { 1 });
    content.append("\r\n");
    content.append("promptcredentialonce:i:1\r\nenablecredsspsupport:i:1\r\nnegotiate security layer:i:1\r\nautoreconnection enabled:i:1\r\n");
    content
}

/// An extra argument is passed on (trimmed) unless it is blank, names the
/// server (`/v:`, in any case) or, with saved credentials, asks for a prompt
/// (`/prompt`, in any case).
pub open spec fn keeps_arg(trimmed: Seq<char>, saved: bool) -> bool {
    &&& trimmed.len() > 0
    &&& !starts_with_ignore_ascii_case(trimmed, "/v:"@)
    &&& !(saved && eq_ignore_ascii_case(trimmed, "/prompt"@))
}

/// The trimmed arguments that are passed on, in their order.
pub open spec fn sanitized_args(args: Seq<String>, saved: bool) -> Seq<Seq<char>>
    decreases args.len(),
{
    if args.len() == 0 {
        Seq::empty()
    } else {
        let rest = sanitized_args(args.drop_last(), saved);
        let t = trim(args.last()@);
        if keeps_arg(t, saved) {
            rest.push(t)
        } else {
            rest
        }
    }
}

/// The extra `mstsc.exe` arguments of `connection`, cleaned of those that
/// would contradict the generated profile.
pub fn sanitized_mstsc_args(connection: &SavedConnection, has_saved_credentials: bool) -> (r: Vec<String>)
    ensures
        texts(r@) == sanitized_args(connection.mstsc_args@, has_saved_credentials),
{
    let args = &connection.mstsc_args;
    let n = args.len();
    let mut out: Vec<String> = Vec::new();
    for i in 0..n
        invariant
            n == args@.len(),
            texts(out@) == sanitized_args(args@.take(i as int), has_saved_credentials),
    {
        let trimmed = trim_str(args[i].as_str());
        assert(args@.take(i + 1).drop_last() == args@.take(i as int));
        assert(args@.take(i + 1).last() == args@[i as int]);
        let keep = !trimmed.is_empty() && !starts_with_ascii_case_insensitive(trimmed, "/v:")
            && !(has_saved_credentials && str_eq_ignore_ascii_case(trimmed, "/prompt"));
        if keep {
            let ghost before = out@;
            out.push(String::from_str(trimmed));
            assert(texts(out@) == texts(before).push(trimmed@));
        }
    }
    assert(args@.take(n as int) == args@);
    out
}

/// The Credential Manager entry written before launching: target
/// `TERMSRV/<host>` and user name as NUL-terminated UTF-16, the password as
/// UTF-16 without terminator, and its size in bytes.
pub struct CredentialRequest {
    pub target: Vec<u16>,
    pub username: Vec<u16>,
    pub password: Vec<u16>,
    pub blob_size: u32,
}

/// Why a saved connection could not be launched.
#[derive(Clone, Copy, Debug, PartialEq, Eq, Structural)]
pub enum ConnectionLaunchError {
    /// The host is empty or blank.
    HostRequired,
    /// The password is longer than a credential blob can hold.
    PasswordTooLarge,
}

/// The credential request for a connection, when its UTF-16 password fits a
/// credential blob (`u32::MAX` bytes).
pub open spec fn credential_request_matches(r: CredentialRequest, c: SavedConnection) -> bool {
    &&& r.target@ == wide_null_units(credential_target_text(c.host@))
    &&& r.username@ == wide_null_units(c.username@)
    &&& r.password@ == utf16(c.password@)
    &&& r.blob_size == 2 * utf16(c.password@).len()
}

/// Builds the Credential Manager entry of `connection`; refused when the
/// password does not fit a credential blob.
pub fn credential_request(connection: &SavedConnection) -> (r: Result<CredentialRequest, ConnectionLaunchError>)
    ensures
        2 * utf16(connection.password@).len() > u32::MAX ==> r == Err::<CredentialRequest, ConnectionLaunchError>(
            ConnectionLaunchError::PasswordTooLarge,
        ),
        2 * utf16(connection.password@).len() <= u32::MAX ==> (r matches Ok(req)
            && credential_request_matches(req, *connection)),
{
    let target = wide_null(connection.credential_target().as_str());
    let username = wide_null(connection.username.as_str());
    let password = utf16_units(connection.password.as_str());
    match password.len().checked_mul(2) {
        None => Err(ConnectionLaunchError::PasswordTooLarge),
        Some(bytes) => if bytes > 0xffff_ffff {
            Err(ConnectionLaunchError::PasswordTooLarge)
        } else {
            Ok(CredentialRequest { target, username, password, blob_size: bytes as u32 })
        },
    }
}

/// The file name of the profile written for a saved connection:
/// `mstsc-mgr-connection-<id>.rdp`.
pub open spec fn connection_file_name_of(id: u64) -> Seq<char> {
    "mstsc-mgr-connection-"@ + decimal(id as nat) + ".rdp"@
}

/// `mstsc-mgr-connection-<id>.rdp`.
pub fn connection_file_name(id: u64) -> (r: String)
    ensures
        r@ == connection_file_name_of(id),
{
    let mut name = String::from_str("mstsc-mgr-connection-");
    push_decimal(&mut name, id);
    name.append(".rdp");
    name
}

/// What launching a saved connection takes: the credential to write first
/// (with saved credentials), the `.rdp` file to write, and the extra
/// arguments to pass after the file.
pub struct ConnectionLaunch {
    pub credential: Option<CredentialRequest>,
    pub file_name: String,
    pub file_bytes: Vec<u8>,
    pub args: Vec<String>,
}

/// `l` is the launch of `c`.
pub open spec fn launch_matches(l: ConnectionLaunch, c: SavedConnection) -> bool {
    let saved = has_saved_credentials(c);
    &&& saved ==> (l.credential matches Some(req) && credential_request_matches(req, c))
    &&& !saved ==> l.credential is None
    &&& l.file_name@ == connection_file_name_of(c.id)
    &&& l.file_bytes@ == rdp_file_bytes_of(connection_rdp_content(c, saved))
    &&& texts(l.args@) == sanitized_args(c.mstsc_args@, saved)
}

/// Prepares the launch of a saved connection; refused when the host is blank,
/// or when saved credentials carry a password too large for a credential blob.
pub fn prepare_connection_launch(connection: &SavedConnection) -> (r: Result<ConnectionLaunch, ConnectionLaunchError>)
    ensures
        is_blank(connection.host@) ==> r == Err::<ConnectionLaunch, ConnectionLaunchError>(
            ConnectionLaunchError::HostRequired,
        ),
        !is_blank(connection.host@) && has_saved_credentials(*connection) && 2 * utf16(
            connection.password@,
        ).len() > u32::MAX ==> r == Err::<ConnectionLaunch, ConnectionLaunchError>(
            ConnectionLaunchError::PasswordTooLarge,
        ),
        !is_blank(connection.host@) && (!has_saved_credentials(*connection) || 2 * utf16(
            connection.password@,
        ).len() <= u32::MAX) ==> (r matches Ok(l) && launch_matches(l, *connection)),
{
    if trim_str(connection.host.as_str()).is_empty() {
        return Err(ConnectionLaunchError::HostRequired);
    }
    let saved = saved_credentials(connection);
    let credential = if saved {
        match credential_request(connection) {
            Err(e) => return Err(e),
            Ok(req) => Some(req),
        }
    } else {
        None
    };
    let content = build_rdp_content(connection, saved);
    Ok(ConnectionLaunch {
        credential,
        file_name: connection_file_name(connection.id),
        file_bytes: rdp_file_bytes(content.as_str()),
        args: sanitized_mstsc_args(connection, saved),
    })
}


/// The profile of a saved connection never depends on its password.
pub proof fn law_connection_content_ignores_password(c: SavedConnection, other: String, saved: bool)
    ensures
        connection_rdp_content(c, saved) == connection_rdp_content(SavedConnection { password: other, ..c }, saved),
{
}

/// Every argument passed on is trimmed, not empty, does not name the server,
/// and with saved credentials does not ask for a prompt.
pub proof fn law_sanitized_args_are_clean(args: Seq<String>, saved: bool)
    ensures
        forall|i: int| 0 <= i < sanitized_args(args, saved).len() ==> {
            let a = #[trigger] sanitized_args(args, saved)[i];
            &&& keeps_arg(a, saved)
            &&& exists|j: int| 0 <= j < args.len() && trim(args[j]@) == a
        },
    decreases args.len(),
{
    if args.len() > 0 {
        law_sanitized_args_are_clean(args.drop_last(), saved);
        let rest = sanitized_args(args.drop_last(), saved);
        assert forall|i: int| 0 <= i < sanitized_args(args, saved).len() implies {
            let a = #[trigger] sanitized_args(args, saved)[i];
            &&& keeps_arg(a, saved)
            &&& exists|j: int| 0 <= j < args.len() && trim(args[j]@) == a
        } by {
            if i < rest.len() {
                assert(sanitized_args(args, saved)[i] == rest[i]);
                let j = choose|j: int| 0 <= j < args.drop_last().len() && trim(args.drop_last()[j]@) == rest[i];
                assert(args[j] == args.drop_last()[j]);
            } else {
                assert(trim(args[args.len() - 1]@) == sanitized_args(args, saved)[i]);
            }
        }
    }
}

proof fn lemma_sanitized_fixed(xs: Seq<String>, saved: bool)
    requires
        forall|i: int| 0 <= i < xs.len() ==> trim((#[trigger] xs[i])@) == xs[i]@ && keeps_arg(xs[i]@, saved),
    ensures
        sanitized_args(xs, saved) == texts(xs),
    decreases xs.len(),
{
    if xs.len() > 0 {
        let d = xs.drop_last();
        assert forall|i: int| 0 <= i < d.len() implies trim((#[trigger] d[i])@) == d[i]@ && keeps_arg(d[i]@, saved) by {
            assert(d[i] == xs[i]);
        }
        lemma_sanitized_fixed(d, saved);
        let l = xs[xs.len() - 1];
        assert(trim(l@) == l@ && keeps_arg(l@, saved));
        assert(texts(d).push(l@) =~= texts(xs));
    } else {
        assert(texts(xs) =~= Seq::<Seq<char>>::empty());
    }
}

/// Cleaning arguments that were already cleaned passes them on unchanged.
pub proof fn law_sanitizing_twice_changes_nothing(args: Seq<String>, cleaned: Seq<String>, saved: bool)
    requires
        texts(cleaned) == sanitized_args(args, saved),
    ensures
        sanitized_args(cleaned, saved) == texts(cleaned),
{
    law_sanitized_args_are_clean(args, saved);
    assert forall|i: int| 0 <= i < cleaned.len() implies trim((#[trigger] cleaned[i])@) == cleaned[i]@
        && keeps_arg(cleaned[i]@, saved) by {
        assert(texts(cleaned)[i] == cleaned[i]@);
        let a = sanitized_args(args, saved)[i];
        let j = choose|j: int| 0 <= j < args.len() && trim(args[j]@) == a;
        lemma_trim_idempotent(args[j]@);
    }
    lemma_sanitized_fixed(cleaned, saved);
}

/// A connection without a password, or with a blank user name, never counts
/// as having saved credentials: its launch writes no Credential Manager
/// entry, its profile asks MSTSC to prompt for credentials, and its extra
/// arguments are cleaned as for a prompting profile (a `/prompt` is kept).
/// With a user name and a password, the entry is written and the profile
/// does not prompt.
pub proof fn law_saved_credentials_need_user_and_password(c: SavedConnection, l: ConnectionLaunch)
    requires
        launch_matches(l, c),
    ensures
        c.password@.len() == 0 || is_blank(c.username@) ==> {
            &&& l.credential is None
            &&& l.file_bytes@ == rdp_file_bytes_of(connection_rdp_content(c, false))
            &&& has_line(connection_rdp_content(c, false), "prompt for credentials:i:1\r\n"@)
            &&& texts(l.args@) == sanitized_args(c.mstsc_args@, false)
        },
        c.password@.len() > 0 && !is_blank(c.username@) ==> {
            &&& l.credential is Some
            &&& l.file_bytes@ == rdp_file_bytes_of(connection_rdp_content(c, true))
            &&& has_line(connection_rdp_content(c, true), "prompt for credentials:i:0\r\n"@)
            &&& texts(l.args@) == sanitized_args(c.mstsc_args@, true)
        },
{
    reveal_strlit("prompt for credentials:i:");
    reveal_strlit("\r\n");
    reveal_strlit("prompt for credentials:i:1\r\n");
    reveal_strlit("prompt for credentials:i:0\r\n");
    let head = "full address:s:"@ + endpoint_text(c.host@, c.port) + "\r\n"@ + "username:s:"@ + c.username@
        + "\r\n"@;
    let i = head.len() as int;
    let t0 = connection_rdp_content(c, false);
    let line0 = "prompt for credentials:i:1\r\n"@;
    assert(decimal(1nat) == seq!['1']);
    assert(t0.subrange(i, i + line0.len()) =~= line0);
    let t1 = connection_rdp_content(c, true);
    let line1 = "prompt for credentials:i:0\r\n"@;
    assert(decimal(0nat) == seq!['0']);
    assert(t1.subrange(i, i + line1.len()) =~= line1);
}

} // verus!
