//! The startup snapshot of workers.

use vstd::prelude::*;

verus! {

/// The snapshot that workers start from. There is none: the process has one already, for its main
/// isolate, and the engine takes only one per process.
pub fn snapshot() -> (r: Option<Vec<u8>>)
    ensures
        r is None,
{
    None
}

} // verus!
