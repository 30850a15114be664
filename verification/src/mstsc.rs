//! The `.rdp` profile written for a connection profile before `mstsc.exe` is
//! started with it.
use vstd::prelude::*;
use crate::crypto::{protect_rdp_password, rdp_field_result, recovered_text_result, unprotect_text, CryptoError};
use crate::domain::endpoint_text;
use crate::model::ConnectionProfile;
use crate::text::{has_line, decimal, is_blank, push_decimal, push_le_bytes, trim_str, utf16, utf16_units, le_bytes};

verus! {

/// `i` is the position of the first backslash of `s`.
pub open spec fn is_first_backslash(s: Seq<char>, i: int) -> bool {
    &&& 0 <= i < s.len()
    &&& s[i] == '\\'
    &&& forall|j: int| 0 <= j < i ==> s[j] != '\\'
}

/// The position of the first backslash of `s`, if it has one.
pub open spec fn first_backslash(s: Seq<char>) -> Option<int> {
    if exists|i: int| is_first_backslash(s, i) {
        Some(choose|i: int| is_first_backslash(s, i))
    } else {
        None
    }
}

/// `DOMAIN\user` split into `(Some(DOMAIN), user)` when both parts are
/// non-empty (split at the first backslash); otherwise `(None, username)`.
pub open spec fn split_domain(s: Seq<char>) -> (Option<Seq<char>>, Seq<char>) {
    match first_backslash(s) {
        Some(i) => if 0 < i && i + 1 < s.len() {
            (Some(s.take(i)), s.skip(i + 1))
        } else {
            (None, s)
        },
        None => (None, s),
    }
}

/// Splits a `DOMAIN\user` user name into its domain and user parts; a name
/// without a backslash, or with an empty part on either side of the first
/// one, is kept whole.
pub fn split_domain_username(username: &str) -> (r: (Option<&str>, &str))
    ensures
        r.1@ == split_domain(username@).1,
        match r.0 {
            Some(d) => split_domain(username@).0 == Some(d@),
            None => split_domain(username@).0 is None,
        },
{
    let n = username.unicode_len();
    let mut i: usize = 0;
    while i < n && username.get_char(i) != '\\'
        invariant
            n == username@.len(),
            i <= n,
            forall|j: int| 0 <= j < i ==> username@[j] != '\\',
        decreases n - i,
    {
        i = i + 1;
    }
    if i < n {
        assert(is_first_backslash(username@, i as int));
        assert forall|k: int| is_first_backslash(username@, k) implies k == i by {
            if k < i {
                assert(username@[k] != '\\');
            } else if k > i {
                assert(username@[i as int] == '\\');
            }
        }
        if i > 0 && i + 1 < n {
            return (Some(username.substring_char(0, i)), username.substring_char(i + 1, n));
        }
    } else {
        assert(!exists|k: int| is_first_backslash(username@, k));
    }
    (None, username)
}

/// `"2"` for a full-screen session, `"1"` for a window.
pub open spec fn screen_mode(fullscreen: bool) -> nat {
    if fullscreen { 2 } else { 1 }
}

/// The settings written after the screen mode: credentials are taken from
/// the file, CredSSP is used and the server is not verified.
pub open spec fn fixed_settings() -> Seq<char> {
    "prompt for credentials:i:0\r\npromptcredentialonce:i:1\r\nauthentication level:i:0\r\nenablecredsspsupport:i:1\r\nnegotiate security layer:i:1\r\npublic mode:i:0\r\nautoreconnection enabled:i:1\r\n"@
}

/// The `.rdp` profile of a connection profile: address, user (without its
/// domain), screen mode and the fixed compatibility settings, then the domain
/// line when the user name carries one, then the protected password line when
/// a non-empty protected password is given.
pub open spec fn rdp_content(p: ConnectionProfile, rdp_password: Option<Seq<char>>) -> Seq<char> {
    let (domain, user) = split_domain(p.username@);
    "full address:s:"@ + endpoint_text(p.host@, p.port) + "\r\n"@ + "username:s:"@ + user
        + "\r\n"@ + "screen mode id:i:"@ + decimal(screen_mode(p.fullscreen)) + "\r\n"@
        + fixed_settings() + match domain {
        Some(d) => "domain:s:"@ + d + "\r\n"@,
        None => Seq::empty(),
    } + match rdp_password {
        Some(pw) => if pw.len() > 0 {
            "password 51:b:"@ + pw + "\r\n"@
        } else {
            Seq::empty()
        },
        None => Seq::empty(),
    }
}

/// An optional text, by its view.
pub open spec fn opt_view(o: Option<&str>) -> Option<Seq<char>> {
    match o {
        Some(s) => Some(s@),
        None => None,
    }
}

/// Builds the `.rdp` profile of `profile`; `rdp_password` is the already
/// protected `password 51:b:` value.
pub fn build_rdp_content(profile: &ConnectionProfile, rdp_password: Option<&str>) -> (r: String)
    ensures
        r@ == rdp_content(*profile, opt_view(rdp_password)),
{
    let (domain, username) = split_domain_username(profile.username.as_str());
    let mut content = String::from_str("full address:s:");
    content.append(profile.endpoint().as_str());
    content.append("\r\n");
    content.append("username:s:");
    content.append(username);
    content.append("\r\n");
    content.append("screen mode id:i:");
    push_decimal(&mut content, if profile.fullscreen { 2 } else { 1 });
    content.append("\r\n");
    content.append("prompt for credentials:i:0\r\npromptcredentialonce:i:1\r\nauthentication level:i:0\r\nenablecredsspsupport:i:1\r\nnegotiate security layer:i:1\r\npublic mode:i:0\r\nautoreconnection enabled:i:1\r\n");
    let ghost base = content@;
    if let Some(domain) = domain {
        content.append("domain:s:");
        content.append(domain);
        content.append("\r\n");
    }
    let ghost with_domain = content@;
    if let Some(password) = rdp_password {
        if !password.is_empty() {
            content.append("password 51:b:");
            content.append(password);
            content.append("\r\n");
        }
    }
    content
}

/// The bytes of an `.rdp` file: the UTF-16LE byte-order mark, then the text in UTF-16LE.
pub open spec fn rdp_file_bytes_of(content: Seq<char>) -> Seq<u8> {
    seq![0xffu8, 0xfeu8] + le_bytes(utf16(content))
}

/// Encodes an `.rdp` profile the way `mstsc.exe` reads it: UTF-16LE with a byte-order mark.
pub fn rdp_file_bytes(content: &str) -> (r: Vec<u8>)
    ensures
        r@ == rdp_file_bytes_of(content@),
{
    let mut bytes: Vec<u8> = Vec::new();
    bytes.push(0xff);
    bytes.push(0xfe);
    let units = utf16_units(content);
    push_le_bytes(&mut bytes, units.as_slice());
    bytes
}

/// The file name of the profile written for a connection: `mstsc-mgr-external-<id>.rdp`.
pub open spec fn rdp_file_name_of(id: u64) -> Seq<char> {
    "mstsc-mgr-external-"@ + decimal(id as nat) + ".rdp"@
}

/// `mstsc-mgr-external-<id>.rdp`.
pub fn rdp_file_name(id: u64) -> (r: String)
    ensures
        r@ == rdp_file_name_of(id),
{
    let mut name = String::from_str("mstsc-mgr-external-");
    push_decimal(&mut name, id);
    name.append(".rdp");
    name
}

/// What `mstsc.exe` is started with: the name and the bytes of the `.rdp`
/// file to write into the temporary directory.
pub struct LaunchPlan {
    pub file_name: String,
    pub file_bytes: Vec<u8>,
}

/// Why a profile could not be launched.
#[derive(Clone, Copy, Debug, PartialEq, Eq, Structural)]
pub enum LaunchError {
    /// The host is empty or blank.
    HostRequired,
    /// The stored password could not be recovered or protected for MSTSC.
    Password(CryptoError),
}

/// The plan for a profile whose `password 51:b:` value is `rdp_password`.
pub open spec fn plan_matches(plan: LaunchPlan, p: ConnectionProfile, rdp_password: Option<Seq<char>>) -> bool {
    &&& plan.file_name@ == rdp_file_name_of(p.id)
    &&& plan.file_bytes@ == rdp_file_bytes_of(rdp_content(p, rdp_password))
}

/// The launch plan of `profile` once its `password 51:b:` value is known;
/// refused when the host is blank.
pub fn launch_plan(profile: &ConnectionProfile, rdp_password: Option<&str>) -> (r: Result<LaunchPlan, LaunchError>)
    ensures
        is_blank(profile.host@) ==> r == Err::<LaunchPlan, LaunchError>(LaunchError::HostRequired),
        !is_blank(profile.host@) ==> (r matches Ok(plan) && plan_matches(plan, *profile, opt_view(rdp_password))),
{
    if trim_str(profile.host.as_str()).is_empty() {
        return Err(LaunchError::HostRequired);
    }
    let content = build_rdp_content(profile, rdp_password);
    Ok(LaunchPlan { file_name: rdp_file_name(profile.id), file_bytes: rdp_file_bytes(content.as_str()) })
}

/// What a launch gives once the `password 51:b:` value is settled: the plan
/// with that value, or the password error.
pub open spec fn launch_with(r: Result<LaunchPlan, LaunchError>, p: ConnectionProfile, field: Result<Option<Seq<char>>, CryptoError>) -> bool {
    match field {
        Ok(v) => r matches Ok(plan) && plan_matches(plan, p, v),
        Err(e) => r == Err::<LaunchPlan, LaunchError>(LaunchError::Password(e)),
    }
}

/// Prepares the launch of `profile`: refuses a blank host; without a stored
/// password the file has no password line. Otherwise the stored text is
/// recovered exactly as `unprotect_text` does with `unprotect_service`; an
/// empty password gives no password line, and any other is protected for
/// MSTSC exactly as `protect_rdp_password` does with `protect_service`. A
/// failure in either step is returned as `Password` and no plan is made.
pub fn prepare_launch<U, P>(profile: &ConnectionProfile, unprotect_service: U, protect_service: P) -> (r: Result<LaunchPlan, LaunchError>)
    where
        U: Fn(&[u8]) -> Option<Vec<u8>>,
        P: Fn(&[u8]) -> Option<Vec<u8>>,
    requires
        forall|b: &[u8]| #[trigger] call_requires(unprotect_service, (b,)),
        forall|b: &[u8]| #[trigger] call_requires(protect_service, (b,)),
    ensures
        is_blank(profile.host@) ==> r == Err::<LaunchPlan, LaunchError>(LaunchError::HostRequired),
        !is_blank(profile.host@) && profile.protected_password@.len() == 0 ==> launch_with(
            r,
            *profile,
            Ok(None),
        ),
        !is_blank(profile.host@) && profile.protected_password@.len() > 0 ==> exists|
            recovered: Result<Seq<char>, CryptoError>,
        |
            #[trigger] recovered_text_result(unprotect_service, profile.protected_password@, recovered)
                && match recovered {
                Err(e) => r == Err::<LaunchPlan, LaunchError>(LaunchError::Password(e)),
                Ok(pw) => if pw.len() == 0 {
                    launch_with(r, *profile, Ok(None))
                } else {
                    exists|field: Result<Seq<char>, CryptoError>|
                        #[trigger] rdp_field_result(protect_service, pw, field) && launch_with(
                            r,
                            *profile,
                            match field {
                                Ok(h) => Ok(Some(h)),
                                Err(e) => Err(e),
                            },
                        )
                },
            },
{
    if trim_str(profile.host.as_str()).is_empty() {
        return Err(LaunchError::HostRequired);
    }
    if profile.protected_password.as_str().is_empty() {
        return launch_plan(profile, None);
    }
    let password = match unprotect_text(profile.protected_password.as_str(), unprotect_service) {
        Err(e) => return Err(LaunchError::Password(e)),
        Ok(p) => p,
    };
    if password.as_str().is_empty() {
        return launch_plan(profile, None);
    }
    match protect_rdp_password(password.as_str(), protect_service) {
        Err(e) => Err(LaunchError::Password(e)),
        Ok(field) => launch_plan(profile, Some(field.as_str())),
    }
}


/// The `.rdp` profile does not depend on the stored (DPAPI-protected)
/// password: only the freshly protected `password 51:b:` value is written.
pub proof fn law_rdp_content_ignores_stored_password(p: ConnectionProfile, stored: String, rdp_password: Option<Seq<char>>)
    ensures
        rdp_content(p, rdp_password) == rdp_content(ConnectionProfile { protected_password: stored, ..p }, rdp_password),
{
}

/// A split user name puts back together as `DOMAIN\user`; the domain holds no
/// backslash and neither part is empty.
pub proof fn law_split_domain_roundtrip(s: Seq<char>)
    ensures
        split_domain(s).0 matches Some(d) ==> {
            &&& d + seq!['\\'] + split_domain(s).1 == s
            &&& d.len() > 0
            &&& split_domain(s).1.len() > 0
            &&& forall|j: int| 0 <= j < d.len() ==> d[j] != '\\'
        },
        split_domain(s).0 is None ==> split_domain(s).1 == s,
{
    if let Some(i) = first_backslash(s) {
        if 0 < i && i + 1 < s.len() {
            assert(is_first_backslash(s, i));
            assert(s.take(i) + seq!['\\'] + s.skip(i + 1) =~= s);
        }
    }
}

/// An `.rdp` file is the two-byte order mark followed by two bytes per UTF-16 unit.
pub proof fn law_rdp_file_length(content: Seq<char>)
    ensures
        rdp_file_bytes_of(content).len() == 2 + 2 * utf16(content).len(),
        rdp_file_bytes_of(content)[0] == 0xff && rdp_file_bytes_of(content)[1] == 0xfe,
{
    crate::text::lemma_le_bytes_len(utf16(content));
}

/// The password line depends on the protected value alone: with a non-empty
/// value, the profile is the one without a password followed by the line
/// `password 51:b:<value>`, whatever the user name (with or without a
/// domain); with an empty value there is no such line.
pub proof fn law_password_line_follows_the_value_alone(p: ConnectionProfile, pw: Seq<char>)
    ensures
        pw.len() > 0 ==> rdp_content(p, Some(pw)) == rdp_content(p, None) + ("password 51:b:"@ + pw + "\r\n"@),
        pw.len() == 0 ==> rdp_content(p, Some(pw)) == rdp_content(p, None),
{
    if pw.len() > 0 {
        assert(rdp_content(p, Some(pw)) =~= rdp_content(p, None) + ("password 51:b:"@ + pw + "\r\n"@));
    } else {
        assert(rdp_content(p, Some(pw)) =~= rdp_content(p, None));
    }
}

/// Every `.rdp` profile starts with the address line (host, and port when it
/// is not 3389), names the user without its domain and the domain on a line
/// of its own when the user name is `DOMAIN\user`, sets the screen mode (2
/// for full screen, 1 otherwise), takes the credentials from the file and
/// uses CredSSP.
pub proof fn law_profile_lines(p: ConnectionProfile, rdp_password: Option<Seq<char>>)
    ensures
        ({
            let t = rdp_content(p, rdp_password);
            let addr = "full address:s:"@ + endpoint_text(p.host@, p.port) + "\r\n"@;
            &&& t.take(addr.len() as int) == addr
            &&& has_line(t, "username:s:"@ + split_domain(p.username@).1 + "\r\n"@)
            &&& has_line(t, "screen mode id:i:"@ + seq![if p.fullscreen { '2' } else { '1' }] + "\r\n"@)
            &&& has_line(t, "prompt for credentials:i:0\r\n"@)
            &&& has_line(t, "enablecredsspsupport:i:1\r\n"@)
            &&& split_domain(p.username@).0 matches Some(d) ==> has_line(t, "domain:s:"@ + d + "\r\n"@)
        }),
{
    reveal_strlit("prompt for credentials:i:0\r\npromptcredentialonce:i:1\r\nauthentication level:i:0\r\nenablecredsspsupport:i:1\r\nnegotiate security layer:i:1\r\npublic mode:i:0\r\nautoreconnection enabled:i:1\r\n");
    reveal_strlit("prompt for credentials:i:0\r\n");
    reveal_strlit("enablecredsspsupport:i:1\r\n");
    let t = rdp_content(p, rdp_password);
    let (domain, user) = split_domain(p.username@);
    let addr = "full address:s:"@ + endpoint_text(p.host@, p.port) + "\r\n"@;
    let uline = "username:s:"@ + user + "\r\n"@;
    let sline = "screen mode id:i:"@ + decimal(screen_mode(p.fullscreen)) + "\r\n"@;
    let fixed = fixed_settings();
    let dpart = match domain {
        Some(d) => "domain:s:"@ + d + "\r\n"@,
        None => Seq::<char>::empty(),
    };
    let ppart = match rdp_password {
        Some(pw) => if pw.len() > 0 {
            "password 51:b:"@ + pw + "\r\n"@
        } else {
            Seq::<char>::empty()
        },
        None => Seq::<char>::empty(),
    };
    assert(t =~= addr + uline + sline + fixed + dpart + ppart);
    assert(decimal(screen_mode(p.fullscreen)) == seq![if p.fullscreen { '2' } else { '1' }]);
    let a = addr.len() as int;
    let u = uline.len() as int;
    let sl = sline.len() as int;
    assert(t.take(a) =~= addr);
    assert(t.subrange(a, a + u) =~= uline);
    assert(t.subrange(a + u, a + u + sl) =~= sline);
    let f = a + u + sl;
    let pl = "prompt for credentials:i:0\r\n"@;
    assert(t.subrange(f, f + pl.len()) =~= pl);
    let cl = "enablecredsspsupport:i:1\r\n"@;
    let off = f + 80;
    assert(t.subrange(off, off + cl.len()) =~= cl);
    if let Some(d) = domain {
        let dl = "domain:s:"@ + d + "\r\n"@;
        let fl = fixed.len() as int;
        assert(t.subrange(f + fl, f + fl + dl.len()) =~= dl);
    }
}

} // verus!
