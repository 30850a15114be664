//! The connection profiles of the Win32 manager and the store that holds them.
use vstd::prelude::*;
use crate::config::SUPPORTED_FORMAT_VERSION;
use crate::domain::{endpoint_of, endpoint_text, id_after};

verus! {

/// A saved connection: where to connect, as whom, and the DPAPI-protected
/// password (Base64), if any.
#[derive(Clone, Debug)]
pub struct ConnectionProfile {
    pub id: u64,
    pub name: String,
    pub host: String,
    pub port: u16,
    pub username: String,
    pub protected_password: String,
    pub fullscreen: bool,
}

impl PartialEq for ConnectionProfile {
    fn eq(&self, other: &Self) -> (r: bool) {
        self.id == other.id && self.name == other.name && self.host == other.host && self.port
            == other.port && self.username == other.username && self.protected_password
            == other.protected_password && self.fullscreen == other.fullscreen
    }
}

impl Eq for ConnectionProfile {
}

impl vstd::std_specs::cmp::PartialEqSpecImpl for ConnectionProfile {
    open spec fn obeys_eq_spec() -> bool {
        true
    }

    open spec fn eq_spec(&self, other: &ConnectionProfile) -> bool {
        &&& self.id == other.id
        &&& self.name@ == other.name@
        &&& self.host@ == other.host@
        &&& self.port == other.port
        &&& self.username@ == other.username@
        &&& self.protected_password@ == other.protected_password@
        &&& self.fullscreen == other.fullscreen
    }
}

impl ConnectionProfile {
    /// The address handed to MSTSC: the host, with `:port` unless the port is 3389.
    pub fn endpoint(&self) -> (r: String)
        ensures
            r@ == endpoint_text(self.host@, self.port),
    {
        endpoint_of(&self.host, self.port)
    }
}

/// All saved connection profiles. A new store carries the supported format
/// version, so that it is read back once saved.
#[derive(Clone, Debug)]
pub struct ConnectionStore {
    pub format_version: u32,
    pub connections: Vec<ConnectionProfile>,
}

impl Default for ConnectionStore {
    fn default() -> (r: Self)
        ensures
            r.format_version == SUPPORTED_FORMAT_VERSION,
            r.connections@.len() == 0,
    {
        ConnectionStore { format_version: SUPPORTED_FORMAT_VERSION, connections: Vec::new() }
    }
}

/// The port a profile gets when none is stored: 3389.
pub fn default_port() -> (r: u16)
    ensures
        r == 3389,
{
    3389
}

/// The store format version a stored file gets when it names none: 1.
pub fn format_version() -> (r: u32)
    ensures
        r == 1,
{
    1
}

/// The largest id among `cs`, or 0 when there is none.
pub open spec fn max_profile_id(cs: Seq<ConnectionProfile>) -> u64
    decreases cs.len(),
{
    if cs.len() == 0 {
        0
    } else {
        let m = max_profile_id(cs.drop_last());
        if cs.last().id > m {
            cs.last().id
        } else {
            m
        }
    }
}

/// Every id of `cs` is at most `max_profile_id(cs)`.
pub proof fn lemma_max_profile_id_bounds(cs: Seq<ConnectionProfile>)
    ensures
        forall|i: int| 0 <= i < cs.len() ==> #[trigger] cs[i].id <= max_profile_id(cs),
    decreases cs.len(),
{
    if cs.len() > 0 {
        lemma_max_profile_id_bounds(cs.drop_last());
        assert forall|i: int| 0 <= i < cs.len() implies #[trigger] cs[i].id <= max_profile_id(cs) by {
            if i < cs.len() - 1 {
                assert(cs[i] == cs.drop_last()[i]);
            }
        }
    }
}

impl ConnectionStore {
    /// The id for a new profile: one more than the largest id in the store
    /// (1 for an empty store), saturating at `u64::MAX`.
    pub fn next_id(&self) -> (r: u64)
        ensures
            r == id_after(max_profile_id(self.connections@)),
            r >= 1,
            forall|i: int|
                0 <= i < self.connections@.len() ==> #[trigger] self.connections@[i].id < r
                    || r == u64::MAX,
    {
        let n = self.connections.len();
        let mut m: u64 = 0;
        for i in 0..n
            invariant
                n == self.connections@.len(),
                m == max_profile_id(self.connections@.take(i as int)),
        {
            let id = self.connections[i].id;
            assert(self.connections@.take(i + 1).drop_last() == self.connections@.take(i as int));
            if id > m {
                m = id;
            }
        }
        assert(self.connections@.take(n as int) == self.connections@);
        proof {
            lemma_max_profile_id_bounds(self.connections@);
        }
        m.saturating_add(1)
    }
}

} // verus!
