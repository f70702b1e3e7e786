//! The memory facility: an initialisation marker and fixed statistics.

use vstd::prelude::*;
use vstd::string::*;

verus! {

/// Initialises core memory and returns the marker `mem:init`.
#[must_use]
pub fn init_mem() -> (marker: String)
    ensures
        marker@ == "mem:init"@,
{
    String::from_str("mem:init")
}

/// The number of active objects and the number of chains: `(42, 1337)`.
#[must_use]
pub fn stats() -> (counts: (usize, usize))
    ensures
        counts == (42usize, 1337usize),
{
    (42, 1337)
}

} // verus!
