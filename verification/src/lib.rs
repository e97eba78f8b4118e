//! Message and data contract for a drone mission-control subsystem built
//! atop a publish/subscribe bus.
//!
//! The crate binds each logical channel to a topic name and a payload
//! type, defines the mission representation exchanged between a mission
//! planner and a flight controller, and gives every payload a verified
//! byte encoding: `decode` inverts `encode`, and bytes that are no
//! payload's encoding are rejected, never coerced to a value.
//!
//! Floating-point coordinates are carried as their IEEE-754 bit patterns
//! (`u32`/`u64`); floating-point arithmetic and text formatting live with
//! the callers.
use vstd::prelude::*;

pub mod codec;
pub mod control;
pub mod geometry;
pub mod interface;
pub mod mission;
pub mod render;

verus! {

pub use crate::codec::DecodeError;
pub use crate::control::{ControlRequest, ControlResponse};
pub use crate::geometry::{GlobalPosition, LocalPosition, LocalVector, Vector3d};
pub use crate::interface::{
    IControlRequest, IControlResponse, IGlobalPosition, ILocalPosition, IMissionStep,
    IMissionUpdate, IYaw, Interface,
};
pub use crate::mission::{
    Duration, MissionItem, MissionNode, MissionParams, MissionPlan, Uid, Waypoint,
};

} // verus!
