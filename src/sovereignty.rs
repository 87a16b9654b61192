//! Guardian of user sovereignty, shared by the allocator and the syscall layer.

use vstd::prelude::*;
use crate::constitutional::ConstitutionalOracle;

verus! {

/// Protects user sovereignty and constitutional rights.
pub struct SovereigntyManager;

impl SovereigntyManager {
    pub fn init(_oracle: &ConstitutionalOracle) -> (r: Self) {
        SovereigntyManager
    }
}

/// Access-control marker for sovereign resources.
#[derive(Debug)]
pub struct AccessControl;

} // verus!
