//! Saved connections, application settings and the encrypted vault payload.
use vstd::prelude::*;
use crate::text::{decimal, push_decimal};

verus! {

/// The port `mstsc.exe` uses when none is given.
pub open spec fn spec_default_rdp_port() -> u16 {
    3389
}

/// The RDP port a connection gets when none is stored: 3389.
pub fn default_rdp_port() -> (r: u16)
    ensures
        r == spec_default_rdp_port(),
{
    3389
}

/// What a boolean setting is when none is stored: `true`.
pub fn default_true() -> (r: bool)
    ensures
        r,
{
    true
}

/// The keep-alive interval, in seconds, when none is stored: 60.
pub fn default_keepalive_seconds() -> (r: u64)
    ensures
        r == 60,
{
    60
}

/// `host` alone on the default port, `host:port` otherwise.
pub open spec fn endpoint_text(host: Seq<char>, port: u16) -> Seq<char> {
    if port == spec_default_rdp_port() {
        host
    } else {
        host.push(':') + decimal(port as nat)
    }
}

/// The Windows Credential Manager target for a host: `TERMSRV/<host>`.
pub open spec fn credential_target_text(host: Seq<char>) -> Seq<char> {
    "TERMSRV/"@ + host
}

/// `host` followed by `:` and the decimal port, or `host` alone on the default port.
pub fn endpoint_of(host: &String, port: u16) -> (r: String)
    ensures
        r@ == endpoint_text(host@, port),
{
    if port == default_rdp_port() {
        host.clone()
    } else {
        let mut out = host.clone();
        crate::text::string_push(&mut out, ':');
        push_decimal(&mut out, port as u64);
        out
    }
}

/// `TERMSRV/<host>`.
pub fn credential_target_of(host: &str) -> (r: String)
    ensures
        r@ == credential_target_text(host@),
{
    let mut out = String::from_str("TERMSRV/");
    out.append(host);
    out
}

/// `<str as Debug>::fmt` output: the text in double quotes, characters
/// escaped as `char::escape_debug` escapes them.
pub uninterp spec fn str_debug(s: Seq<char>) -> Seq<char>;

/// Formats `s` with `{:?}` (`<str as Debug>::fmt`). The escaping rules are long;
/// the contract names the result after the text alone.
#[verifier::external_body]
fn debug_quoted(s: &str) -> (r: String)
    ensures
        r@ == str_debug(s@),
{
    format!("{:?}", s)
}

/// A saved RDP connection with its stored credentials and extra `mstsc.exe` arguments.
#[derive(Clone)]
pub struct SavedConnection {
    pub id: u64,
    pub name: String,
    pub host: String,
    pub port: u16,
    pub username: String,
    pub password: String,
    pub mstsc_args: Vec<String>,
}

/// A list of strings, by their views.
pub open spec fn texts(v: Seq<String>) -> Seq<Seq<char>> {
    Seq::new(v.len(), |i: int| v[i]@)
}

/// Whether two lists of strings hold the same texts in the same order.
pub fn same_texts(a: &Vec<String>, b: &Vec<String>) -> (r: bool)
    ensures
        r == (texts(a@) == texts(b@)),
{
    let n = a.len();
    if n != b.len() {
        assert(texts(a@).len() != texts(b@).len());
        return false;
    }
    for i in 0..n
        invariant
            n == a@.len(),
            n == b@.len(),
            forall|k: int| 0 <= k < i ==> a@[k]@ == b@[k]@,
    {
        if a[i] != b[i] {
            assert(texts(a@)[i as int] != texts(b@)[i as int]);
            return false;
        }
    }
    assert(texts(a@) =~= texts(b@));
    true
}

/// Two saved connections hold the same values.
pub open spec fn same_connection(a: SavedConnection, b: SavedConnection) -> bool {
    &&& a.id == b.id
    &&& a.name@ == b.name@
    &&& a.host@ == b.host@
    &&& a.port == b.port
    &&& a.username@ == b.username@
    &&& a.password@ == b.password@
    &&& texts(a.mstsc_args@) == texts(b.mstsc_args@)
}

impl PartialEq for SavedConnection {
    fn eq(&self, other: &Self) -> (r: bool) {
        self.id == other.id && self.name == other.name && self.host == other.host && self.port
            == other.port && self.username == other.username && self.password == other.password
            && same_texts(&self.mstsc_args, &other.mstsc_args)
    }
}

impl Eq for SavedConnection {
}

impl vstd::std_specs::cmp::PartialEqSpecImpl for SavedConnection {
    open spec fn obeys_eq_spec() -> bool {
        true
    }

    open spec fn eq_spec(&self, other: &SavedConnection) -> bool {
        same_connection(*self, *other)
    }
}

/// `{:?}` of a list of strings without its brackets: the quoted items joined by `", "`.
pub open spec fn debug_items(items: Seq<String>) -> Seq<char>
    decreases items.len(),
{
    if items.len() == 0 {
        Seq::empty()
    } else if items.len() == 1 {
        str_debug(items[0]@)
    } else {
        debug_items(items.drop_last()) + ", "@ + str_debug(items.last()@)
    }
}

/// The debug rendering of a saved connection, with the password replaced by `<redacted>`.
pub open spec fn redacted_debug_text(c: SavedConnection) -> Seq<char> {
    "SavedConnection { id: "@ + decimal(c.id as nat) + ", name: "@ + str_debug(c.name@)
        + ", host: "@ + str_debug(c.host@) + ", port: "@ + decimal(c.port as nat)
        + ", username: "@ + str_debug(c.username@) + ", password: "@ + str_debug(
        "<redacted>"@,
    ) + ", mstsc_args: ["@ + debug_items(c.mstsc_args@) + "] }"@
}

impl SavedConnection {
    /// The address handed to MSTSC: the host, with `:port` unless the port is 3389.
    pub fn endpoint(&self) -> (r: String)
        ensures
            r@ == endpoint_text(self.host@, self.port),
    {
        endpoint_of(&self.host, self.port)
    }

    /// The Credential Manager target of this connection: `TERMSRV/<host>`.
    pub fn credential_target(&self) -> (r: String)
        ensures
            r@ == credential_target_text(self.host@),
    {
        credential_target_of(self.host.as_str())
    }

    /// The `{:?}` rendering of the connection, in which the password is never shown.
    pub fn redacted_debug(&self) -> (r: String)
        ensures
            r@ == redacted_debug_text(*self),
    {
        let mut out = String::from_str("SavedConnection { id: ");
        push_decimal(&mut out, self.id);
        out.append(", name: ");
        out.append(debug_quoted(self.name.as_str()).as_str());
        out.append(", host: ");
        out.append(debug_quoted(self.host.as_str()).as_str());
        out.append(", port: ");
        push_decimal(&mut out, self.port as u64);
        out.append(", username: ");
        out.append(debug_quoted(self.username.as_str()).as_str());
        out.append(", password: ");
        out.append(debug_quoted("<redacted>").as_str());
        out.append(", mstsc_args: [");
        let n = self.mstsc_args.len();
        let ghost before = out@;
        for i in 0..n
            invariant
                n == self.mstsc_args@.len(),
                out@ == before + debug_items(self.mstsc_args@.take(i as int)),
        {
            if i > 0 {
                out.append(", ");
            }
            out.append(debug_quoted(self.mstsc_args[i].as_str()).as_str());
            assert(self.mstsc_args@.take(i + 1).drop_last() == self.mstsc_args@.take(i as int));
        }
        assert(self.mstsc_args@.take(n as int) == self.mstsc_args@);
        out.append("] }");
        out
    }
}

/// The synthetic input the keep-alive worker sends.
#[derive(Clone, Copy, Debug, PartialEq, Eq, Structural)]
pub enum KeepAliveInput {
    MouseMove,
    ShiftKey,
}

impl Default for KeepAliveInput {
    fn default() -> (r: Self)
        ensures
            r == KeepAliveInput::MouseMove,
    {
        KeepAliveInput::MouseMove
    }
}

/// User preferences of the application.
#[derive(Clone, Debug, PartialEq, Eq, Structural)]
pub struct AppSettings {
    pub floating_controller: bool,
    pub always_show_tabs: bool,
    pub global_hotkeys: bool,
    pub close_to_tray: bool,
    pub logging_enabled: bool,
    pub keepalive_enabled: bool,
    pub keepalive_interval_seconds: u64,
    pub keepalive_input: KeepAliveInput,
}

/// The settings of a fresh installation.
pub open spec fn default_settings() -> AppSettings {
    AppSettings {
        floating_controller: true,
        always_show_tabs: false,
        global_hotkeys: true,
        close_to_tray: true,
        logging_enabled: true,
        keepalive_enabled: false,
        keepalive_interval_seconds: 60,
        keepalive_input: KeepAliveInput::MouseMove,
    }
}

impl Default for AppSettings {
    fn default() -> (r: Self)
        ensures
            r == default_settings(),
    {
        AppSettings {
            floating_controller: true,
            always_show_tabs: false,
            global_hotkeys: true,
            close_to_tray: true,
            logging_enabled: true,
            keepalive_enabled: false,
            keepalive_interval_seconds: default_keepalive_seconds(),
            keepalive_input: KeepAliveInput::MouseMove,
        }
    }
}

/// The decrypted content of the local vault.
pub struct VaultPayload {
    pub format_version: u32,
    pub connections: Vec<SavedConnection>,
}

impl Default for VaultPayload {
    fn default() -> (r: Self)
        ensures
            r.format_version == 1,
            r.connections@.len() == 0,
    {
        VaultPayload { format_version: 1, connections: Vec::new() }
    }
}

/// Two lists of connections are equal element by element.
pub open spec fn same_connections(a: Seq<SavedConnection>, b: Seq<SavedConnection>) -> bool {
    a.len() == b.len() && forall|i: int| 0 <= i < a.len() ==> same_connection(#[trigger] a[i], b[i])
}

impl PartialEq for VaultPayload {
    fn eq(&self, other: &Self) -> (r: bool) {
        if self.format_version != other.format_version {
            return false;
        }
        let n = self.connections.len();
        if n != other.connections.len() {
            return false;
        }
        for i in 0..n
            invariant
                n == self.connections@.len(),
                n == other.connections@.len(),
                forall|k: int| 0 <= k < i ==> same_connection(#[trigger] self.connections@[k], other.connections@[k]),
        {
            if self.connections[i] != other.connections[i] {
                return false;
            }
        }
        true
    }
}

impl Eq for VaultPayload {
}

impl vstd::std_specs::cmp::PartialEqSpecImpl for VaultPayload {
    open spec fn obeys_eq_spec() -> bool {
        true
    }

    open spec fn eq_spec(&self, other: &VaultPayload) -> bool {
        self.format_version == other.format_version && same_connections(self.connections@, other.connections@)
    }
}

/// The largest id among `cs`, or 0 when there is none.
pub open spec fn max_saved_id(cs: Seq<SavedConnection>) -> u64
    decreases cs.len(),
{
    if cs.len() == 0 {
        0
    } else {
        let m = max_saved_id(cs.drop_last());
        if cs.last().id > m {
            cs.last().id
        } else {
            m
        }
    }
}

/// One more than `max`, saturating at `u64::MAX`.
pub open spec fn id_after(max: u64) -> u64 {
    if max == u64::MAX {
        u64::MAX
    } else {
        (max + 1) as u64
    }
}

/// Every id of `cs` is at most `max_saved_id(cs)`.
pub proof fn lemma_max_saved_id_bounds(cs: Seq<SavedConnection>)
    ensures
        forall|i: int| 0 <= i < cs.len() ==> #[trigger] cs[i].id <= max_saved_id(cs),
    decreases cs.len(),
{
    if cs.len() > 0 {
        lemma_max_saved_id_bounds(cs.drop_last());
        assert forall|i: int| 0 <= i < cs.len() implies #[trigger] cs[i].id <= max_saved_id(cs) by {
            if i < cs.len() - 1 {
                assert(cs[i] == cs.drop_last()[i]);
            }
        }
    }
}

impl VaultPayload {
    /// The id for a new connection: one more than the largest id in the vault
    /// (1 for an empty vault), saturating at `u64::MAX`.
    pub fn next_id(&self) -> (r: u64)
        ensures
            r == id_after(max_saved_id(self.connections@)),
            r >= 1,
            forall|i: int|
                0 <= i < self.connections@.len() ==> #[trigger] self.connections@[i].id < r
                    || r == u64::MAX,
    {
        let n = self.connections.len();
        let mut m: u64 = 0;
        for i in 0..n
            invariant
                n == self.connections@.len(),
                m == max_saved_id(self.connections@.take(i as int)),
        {
            let id = self.connections[i].id;
            assert(self.connections@.take(i + 1).drop_last() == self.connections@.take(i as int));
            if id > m {
                m = id;
            }
        }
        assert(self.connections@.take(n as int) == self.connections@);
        proof {
            lemma_max_saved_id_bounds(self.connections@);
        }
        m.saturating_add(1)
    }
}

/// A top-level MSTSC window found on the desktop.
#[derive(Clone, Debug)]
pub struct MstscWindow {
    pub hwnd: isize,
    pub pid: u32,
    pub title: String,
}

impl PartialEq for MstscWindow {
    fn eq(&self, other: &Self) -> (r: bool) {
        self.hwnd == other.hwnd && self.pid == other.pid && self.title == other.title
    }
}

impl Eq for MstscWindow {
}

impl vstd::std_specs::cmp::PartialEqSpecImpl for MstscWindow {
    open spec fn obeys_eq_spec() -> bool {
        true
    }

    open spec fn eq_spec(&self, other: &MstscWindow) -> bool {
        &&& self.hwnd == other.hwnd
        &&& self.pid == other.pid
        &&& self.title@ == other.title@
    }
}


/// The debug rendering of a saved connection does not depend on its password:
/// two connections that differ only there render alike.
pub proof fn law_debug_never_shows_password(c: SavedConnection, other_password: String)
    ensures
        redacted_debug_text(c) == redacted_debug_text(SavedConnection { password: other_password, ..c }),
{
}

} // verus!
