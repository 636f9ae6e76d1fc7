//! The actions that keys can be bound to.
use vstd::prelude::*;

verus! {

/// An action of the player or of the debug camera.
#[derive(Debug, Clone, Copy, Hash, PartialEq, Eq, Structural, PartialOrd, Ord)]
pub enum KeyInput {
    /// Player thrust.
    Thrust,
    TurnRight,
    TurnLeft,
    Zoom,
    DeZoom,
    CenterCam,
    CamUp,
    CamLeft,
    CamRight,
    CamDown,
}

} // verus!
