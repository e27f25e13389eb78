//! What the front end is told about a newer release.

use crate::sound::text_of;
use vstd::prelude::*;

verus! {

/// The answer to a check for updates.
#[derive(Debug, PartialEq, Eq)]
pub struct UpdateInfo {
    pub available: bool,
    /// The newer version, where there is one.
    pub version: Option<String>,
    /// The release notes of the newer version, where it has any.
    pub notes: Option<String>,
}

/// The answer for the front end: the latest version and its notes where an
/// update is available, and neither where the board is up to date.
pub fn update_info(available: bool, latest_version: String, notes: Option<String>) -> (r:
    UpdateInfo)
    ensures
        r.available == available,
        text_of(r.version) == if available {
            Some(latest_version@)
        } else {
            None
        },
        text_of(r.notes) == if available {
            text_of(notes)
        } else {
            None
        },
{
    if available {
        UpdateInfo { available: true, version: Some(latest_version), notes }
    } else {
        UpdateInfo { available: false, version: None, notes: None }
    }
}

} // verus!
