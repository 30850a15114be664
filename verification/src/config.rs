//! Rules applied to the settings file and the local vault once they are read.
use vstd::prelude::*;
use crate::domain::{AppSettings, VaultPayload, default_settings};

verus! {

/// The only vault and store format this version reads.
pub const SUPPORTED_FORMAT_VERSION: u32 = 1;

/// A stored vault or store names a format version other than 1.
#[derive(Clone, Copy, Debug, PartialEq, Eq, Structural)]
pub struct UnsupportedVersion(pub u32);

/// The settings in effect: the stored ones, or the defaults when no settings
/// file exists.
pub fn settings_or_default(stored: Option<AppSettings>) -> (r: AppSettings)
    ensures
        stored matches Some(s) ==> r == s,
        stored is None ==> r == default_settings(),
{
    match stored {
        Some(s) => s,
        None => AppSettings::default(),
    }
}

/// Accepts a decrypted vault (local or imported) of format version 1; any
/// other version is refused with the version found.
pub fn check_vault(vault: VaultPayload) -> (r: Result<VaultPayload, UnsupportedVersion>)
    ensures
        vault.format_version == SUPPORTED_FORMAT_VERSION ==> r == Ok::<VaultPayload, UnsupportedVersion>(vault),
        vault.format_version != SUPPORTED_FORMAT_VERSION ==> r == Err::<VaultPayload, UnsupportedVersion>(
            UnsupportedVersion(vault.format_version),
        ),
{
    if vault.format_version != SUPPORTED_FORMAT_VERSION {
        return Err(UnsupportedVersion(vault.format_version));
    }
    Ok(vault)
}

/// The vault in effect: an empty version-1 vault when none is stored, the
/// stored one when its version is 1.
pub fn load_vault(stored: Option<VaultPayload>) -> (r: Result<VaultPayload, UnsupportedVersion>)
    ensures
        stored is None ==> (r matches Ok(v) && v.format_version == 1 && v.connections@.len() == 0),
        stored matches Some(v) ==> (v.format_version == SUPPORTED_FORMAT_VERSION ==> r
            == Ok::<VaultPayload, UnsupportedVersion>(v)),
        stored matches Some(v) ==> (v.format_version != SUPPORTED_FORMAT_VERSION ==> r
            == Err::<VaultPayload, UnsupportedVersion>(UnsupportedVersion(v.format_version))),
{
    match stored {
        None => Ok(VaultPayload::default()),
        Some(v) => check_vault(v),
    }
}

} // verus!
