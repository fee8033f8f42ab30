//! Presence of commands on the execution search path.

use vstd::prelude::*;

verus! {

/// Asks `which::which` whether `command` names an executable: a file of
/// that name in a directory of the search path or, for a name that holds a
/// path separator, the file at that path. The answer depends on the
/// environment and the file system at the moment of the call, so nothing
/// is claimed of it.
#[verifier::external_body]
pub(crate) fn on_search_path(command: &str) -> (found: bool) {
    which::which(command).is_ok()
}

} // verus!
