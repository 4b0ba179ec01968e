//! The physics system's handle. Its integration works on floating-point
//! vectors and runs in the embedding program.

use vstd::prelude::*;

verus! {

/// Integrates acceleration into velocity and position, and applies friction.
pub struct PhysicsSystem {}

impl PhysicsSystem {
    pub fn new() -> (r: PhysicsSystem) {
        PhysicsSystem {  }
    }
}

} // verus!
