//! The fixed stage order of a simulation frame.
//!
//! The external scheduler runs each system in one of these stages, in the
//! declared order. The collision passes rely on it: cell maintenance
//! ([`crate::collision::update_hash_marker`] and
//! [`crate::collision::insert_hash_marker`]) runs before overlap resolution
//! ([`crate::collision::collisions`]) within a frame, and the particle
//! systems run spawn, then aging, then transform, then cleanup.

use vstd::prelude::*;

verus! {

/// The stages a frame is divided into, in execution order.
#[derive(Debug, Hash, PartialEq, Eq, Clone, Structural)]
pub enum CoreStages {
    /// One-time systems run before the first frame.
    Startup,
    /// Frame preparation: input snapshots, collision cell maintenance and
    /// overlap resolution.
    PreUpdate,
    /// Game and particle simulation systems.
    Update,
    /// Systems that react to the frame's simulation results.
    PostUpdate,
    /// Gathering of renderable instances.
    Collect,
    /// Submission to the renderer.
    Render,
}

impl CoreStages {
    /// The position of this stage in the frame's execution order.
    pub fn order(&self) -> (r: u32)
        ensures
            r == match *self {
                CoreStages::Startup => 0u32,
                CoreStages::PreUpdate => 1u32,
                CoreStages::Update => 2u32,
                CoreStages::PostUpdate => 3u32,
                CoreStages::Collect => 4u32,
                CoreStages::Render => 5u32,
            },
    {
        match *self {
            CoreStages::Startup => 0,
            CoreStages::PreUpdate => 1,
            CoreStages::Update => 2,
            CoreStages::PostUpdate => 3,
            CoreStages::Collect => 4,
            CoreStages::Render => 5,
        }
    }
}

} // verus!
