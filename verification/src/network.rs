//! Networking stub from the module-system exercise: connecting is a visible
//! entry point with no observable effect.

use vstd::prelude::*;

verus! {

/// Pretends to connect; does nothing.
pub fn connect() {
}

} // verus!
