//! What a version of the pipeline offers.

use vstd::prelude::*;

verus! {

/// The capabilities of the pipeline that the library serves. Each one
/// switches a part of the work on.
#[derive(Clone, Copy, Debug)]
pub struct Capabilities {
    /// Invocations carry the state of the flow: the context holds it, and
    /// its members are shortcuts.
    pub supports_state: bool,
    /// Invocations may address a node of the state. Without state there is
    /// no node to address.
    pub supports_node_addressing: bool,
    /// The scope guard is in force.
    pub enforces_scope: bool,
}

impl Capabilities {
    /// All capabilities.
    pub open spec fn all() -> Capabilities {
        Capabilities { supports_state: true, supports_node_addressing: true, enforces_scope: true }
    }

    /// All capabilities.
    pub fn full() -> (capabilities: Capabilities)
        ensures
            capabilities == Capabilities::all(),
    {
        Capabilities { supports_state: true, supports_node_addressing: true, enforces_scope: true }
    }
}

} // verus!
