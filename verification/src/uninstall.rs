//! The decision of the uninstall workflow: a name absent from the state is
//! `NotFound` and nothing is touched; a present name yields exactly the
//! artifact paths its record owns, which must all be deleted before the
//! record itself is removed.
use vstd::prelude::*;

use crate::error::BinmanError;
use crate::error::BinmanResult;
use crate::error::Cause;
use crate::state::State;
use crate::state::spec_lookup;

verus! {

/// The artifact paths to delete for the named target, or `NotFound` when
/// it is not installed.
pub fn uninstall_plan(state: &State, target_name: &str) -> (r: BinmanResult<Vec<String>>)
    requires
        state.wf(),
    ensures
        match r {
            Ok(paths) => spec_lookup(state.entries_view(), target_name@) matches Some(e)
                && paths.deep_view() == e.artifacts,
            Err(e) => spec_lookup(state.entries_view(), target_name@) is None && e.cause
                == Cause::NotFound,
        },
{
    match state.get_copy(target_name) {
        Some(entry) => Ok(entry.artifacts),
        None => Err(BinmanError::new(Cause::NotFound, "target is not installed")),
    }
}

} // verus!
