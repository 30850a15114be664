//! Direct `/v:` connections through a Credential Manager entry, and removal
//! of such entries.
use vstd::prelude::*;
use crate::domain::{credential_target_of, credential_target_text};
use crate::rdp_launch::CredentialRequest;
use crate::text::{is_blank, trim, trim_str, utf16, utf16_units, wide_null, wide_null_units};

verus! {

/// Why a direct connection was refused.
#[derive(Clone, Copy, Debug, PartialEq, Eq, Structural)]
pub enum ConnectError {
    /// The host is empty or blank.
    HostRequired,
    /// The user name is empty.
    UsernameRequired,
    /// The password is empty.
    PasswordRequired,
    /// The password is longer than a credential blob can hold.
    PasswordTooLarge,
}

/// The Credential Manager target of a host: `TERMSRV/<host>`.
pub fn credential_target(host: &str) -> (r: String)
    ensures
        r@ == credential_target_text(host@),
{
    credential_target_of(host)
}

/// The host of a direct connection, trimmed; refused when blank.
pub fn connect_host(host: &str) -> (r: Result<String, ConnectError>)
    ensures
        is_blank(host@) ==> r == Err::<String, ConnectError>(ConnectError::HostRequired),
        !is_blank(host@) ==> (r matches Ok(h) && h@ == trim(host@)),
{
    let h = trim_str(host);
    if h.is_empty() {
        Err(ConnectError::HostRequired)
    } else {
        Ok(String::from_str(h))
    }
}

/// The credential written for `host`: target and user name as NUL-terminated
/// UTF-16, the password as UTF-16 and its size in bytes.
pub open spec fn credential_write_matches(r: CredentialRequest, host: Seq<char>, username: Seq<char>, password: Seq<char>) -> bool {
    &&& r.target@ == wide_null_units(credential_target_text(host))
    &&& r.username@ == wide_null_units(username)
    &&& r.password@ == utf16(password)
    &&& r.blob_size == 2 * utf16(password).len()
}

/// The Credential Manager entry for `host`; refused for an empty user name,
/// an empty password, or a password too large for a credential blob.
pub fn credential_write(host: &str, username: &str, password: &str) -> (r: Result<CredentialRequest, ConnectError>)
    ensures
        username@.len() == 0 ==> r == Err::<CredentialRequest, ConnectError>(ConnectError::UsernameRequired),
        username@.len() > 0 && password@.len() == 0 ==> r == Err::<CredentialRequest, ConnectError>(
            ConnectError::PasswordRequired,
        ),
        username@.len() > 0 && password@.len() > 0 && 2 * utf16(password@).len() > u32::MAX ==> r
            == Err::<CredentialRequest, ConnectError>(ConnectError::PasswordTooLarge),
        username@.len() > 0 && password@.len() > 0 && 2 * utf16(password@).len() <= u32::MAX ==> (
        r matches Ok(req) && credential_write_matches(req, host@, username@, password@)),
{
    if username.is_empty() {
        return Err(ConnectError::UsernameRequired);
    }
    if password.is_empty() {
        return Err(ConnectError::PasswordRequired);
    }
    let target = wide_null(credential_target(host).as_str());
    let user = wide_null(username);
    let units = utf16_units(password);
    match units.len().checked_mul(2) {
        None => Err(ConnectError::PasswordTooLarge),
        Some(bytes) => if bytes > 0xffff_ffff {
            Err(ConnectError::PasswordTooLarge)
        } else {
            Ok(CredentialRequest { target, username: user, password: units, blob_size: bytes as u32 })
        },
    }
}

/// What a direct connection takes: the credential to write, then `mstsc.exe /v:<host>`.
pub struct ConnectPlan {
    pub credential: CredentialRequest,
    pub mstsc_arg: String,
}

/// The direct connection to an already trimmed `host` as `username` (trimmed
/// here) with the recovered `password`.
pub fn connect_plan(host: &str, username: &str, password: &str) -> (r: Result<ConnectPlan, ConnectError>)
    ensures
        trim(username@).len() == 0 ==> r == Err::<ConnectPlan, ConnectError>(ConnectError::UsernameRequired),
        trim(username@).len() > 0 && password@.len() == 0 ==> r == Err::<ConnectPlan, ConnectError>(
            ConnectError::PasswordRequired,
        ),
        trim(username@).len() > 0 && password@.len() > 0 && 2 * utf16(password@).len() > u32::MAX
            ==> r == Err::<ConnectPlan, ConnectError>(ConnectError::PasswordTooLarge),
        trim(username@).len() > 0 && password@.len() > 0 && 2 * utf16(password@).len() <= u32::MAX
            ==> (r matches Ok(plan) && credential_write_matches(plan.credential, host@, trim(username@), password@)
            && plan.mstsc_arg@ == "/v:"@ + host@),
{
    let credential = match credential_write(host, trim_str(username), password) {
        Err(e) => return Err(e),
        Ok(c) => c,
    };
    let mut arg = String::from_str("/v:");
    arg.append(host);
    Ok(ConnectPlan { credential, mstsc_arg: arg })
}

/// The target whose credential is deleted for `host` (trimmed), as
/// NUL-terminated UTF-16; nothing is deleted for a blank host.
pub fn delete_credential_target(host: &str) -> (r: Option<Vec<u16>>)
    ensures
        is_blank(host@) ==> r is None,
        !is_blank(host@) ==> (r matches Some(t) && t@ == wide_null_units(credential_target_text(trim(host@)))),
{
    let h = trim_str(host);
    if h.is_empty() {
        return None;
    }
    Some(wide_null(credential_target(h).as_str()))
}

} // verus!
