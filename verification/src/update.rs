//! The decision of the update workflow: reinstall only when the latest
//! catalog version strictly exceeds the installed one, or when a forced
//! reinstall was asked for; anything else is "nothing to do".
use vstd::prelude::*;

use crate::fuzzy_semver::Version;
use crate::fuzzy_semver::spec_version_lt;

verus! {

/// Whether an update should uninstall the current version and install the
/// latest one.
pub fn should_update(current: &Version, latest: &Version, force: bool) -> (r: bool)
    ensures
        r == (spec_version_lt(current@, latest@) || force),
{
    current.precedes(latest) || force
}

} // verus!
