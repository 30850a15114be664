//! Rules applied to the stored connection profiles once they are read.
use vstd::prelude::*;
use crate::config::{UnsupportedVersion, SUPPORTED_FORMAT_VERSION};
use crate::model::ConnectionStore;

verus! {

/// What was found where the profiles are stored.
pub enum StoredProfiles {
    /// No file.
    Missing,
    /// An empty file.
    Empty,
    /// A file that parsed as a store.
    Parsed(ConnectionStore),
}

/// The profiles in effect: a new, empty store of the supported format version
/// when the file is missing or empty, the parsed store when its format version
/// is 1, and a refusal naming the version otherwise.
pub fn load_profiles(found: StoredProfiles) -> (r: Result<ConnectionStore, UnsupportedVersion>)
    ensures
        found is Missing || found is Empty ==> (r matches Ok(s) && s.format_version == SUPPORTED_FORMAT_VERSION
            && s.connections@.len() == 0),
        found matches StoredProfiles::Parsed(s) ==> (s.format_version == SUPPORTED_FORMAT_VERSION
            ==> r == Ok::<ConnectionStore, UnsupportedVersion>(s)),
        found matches StoredProfiles::Parsed(s) ==> (s.format_version != SUPPORTED_FORMAT_VERSION
            ==> r == Err::<ConnectionStore, UnsupportedVersion>(UnsupportedVersion(s.format_version))),
{
    match found {
        StoredProfiles::Missing => Ok(ConnectionStore::default()),
        StoredProfiles::Empty => Ok(ConnectionStore::default()),
        StoredProfiles::Parsed(s) => {
            if s.format_version != SUPPORTED_FORMAT_VERSION {
                Err(UnsupportedVersion(s.format_version))
            } else {
                Ok(s)
            }
        },
    }
}

} // verus!
