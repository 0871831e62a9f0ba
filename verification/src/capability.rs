//! What agents know about a capability.

use vstd::prelude::*;

verus! {

/// The name and description of a capability.
#[derive(Debug, Clone)]
pub struct CapabilityInfo {
    pub name: String,
    pub description: String,
}

} // verus!
