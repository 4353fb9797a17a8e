//! The name of the host a beacon runs on.

use vstd::prelude::*;

verus! {

/// Calls `gethostname::gethostname` and turns the name into text, with
/// `OsStr::to_string_lossy` where it is not Unicode. The name is the
/// machine's to give: nothing is claimed of it. On Windows the call can
/// panic where the name changes while it is being read; on Unix it does
/// not panic.
#[verifier::external_body]
pub(crate) fn get_hostname() -> (name: String) {
    gethostname::gethostname().to_string_lossy().into_owned()
}

} // verus!
