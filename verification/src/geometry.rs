//! Position value types for the vehicle-local and the geodetic frame.
//!
//! Every scalar coordinate is carried as the IEEE-754 bit pattern of the
//! corresponding floating-point number (`u32` for single precision, `u64`
//! for double precision).  The library never does floating-point
//! arithmetic itself: it models, transports and encodes the values, and
//! equality on bit patterns is exact representation equality.
use vstd::prelude::*;

verus! {

/// A vehicle-local Cartesian position in meters.  Each field holds the
/// bit pattern of a single-precision coordinate.
#[derive(Clone, Copy, Debug, PartialEq, Eq, Structural)]
pub struct LocalPosition {
    pub x: u32,
    pub y: u32,
    pub z: u32,
}

/// A displacement between two local positions: a vector, deliberately a
/// distinct type from `LocalPosition` so that an absolute position cannot
/// be mistaken for a relative offset.  Fields are single-precision bit
/// patterns.
#[derive(Clone, Copy, Debug, PartialEq, Eq, Structural)]
pub struct LocalVector {
    pub x: u32,
    pub y: u32,
    pub z: u32,
}

/// A three-component vector of double-precision values, carried as bit
/// patterns.  Used for kinematic limits and local waypoint offsets.
#[derive(Clone, Copy, Debug, PartialEq, Eq, Structural)]
pub struct Vector3d {
    pub x: u64,
    pub y: u64,
    pub z: u64,
}

/// A geodetic position: latitude and longitude in degrees (double
/// precision bit patterns), altitude in meters (single precision bit
/// pattern).  No arithmetic is defined on it: geodetic addition is
/// ill-defined without a projection.
#[derive(Clone, Copy, Debug, PartialEq, Eq, Structural)]
pub struct GlobalPosition {
    pub lat: u64,
    pub lon: u64,
    pub alt: u32,
}

impl LocalPosition {
    /// The origin: every coordinate is the bit pattern of positive zero.
    pub open spec fn spec_origin() -> LocalPosition {
        LocalPosition { x: 0, y: 0, z: 0 }
    }

    /// The raw three-element form of this position.
    pub open spec fn spec_expand(self) -> [u32; 3] {
        [self.x, self.y, self.z]
    }

    /// This position read as a plain vector (an exact field copy).
    pub open spec fn spec_to_vector(self) -> LocalVector {
        LocalVector { x: self.x, y: self.y, z: self.z }
    }

    /// The position with the same coordinates as a vector (an exact field
    /// copy).
    pub open spec fn spec_from_vector(v: LocalVector) -> LocalPosition {
        LocalPosition { x: v.x, y: v.y, z: v.z }
    }

    pub fn new(x: u32, y: u32, z: u32) -> (r: LocalPosition)
        ensures
            r == (LocalPosition { x, y, z }),
    {
        LocalPosition { x, y, z }
    }

    /// The raw `[x, y, z]` form.
    pub fn expand(self) -> (r: [u32; 3])
        ensures
            r == self.spec_expand(),
    {
        [self.x, self.y, self.z]
    }

    /// Exact conversion to the generic vector form.
    pub fn to_vector(self) -> (r: LocalVector)
        ensures
            r == self.spec_to_vector(),
    {
        LocalVector { x: self.x, y: self.y, z: self.z }
    }

    /// Exact conversion from the generic vector form.
    pub fn from_vector(v: LocalVector) -> (r: LocalPosition)
        ensures
            r == LocalPosition::spec_from_vector(v),
    {
        LocalPosition { x: v.x, y: v.y, z: v.z }
    }
}

impl Default for LocalPosition {
    /// The default local position is the origin.
    fn default() -> (r: LocalPosition)
        ensures
            r == LocalPosition::spec_origin(),
    {
        LocalPosition { x: 0, y: 0, z: 0 }
    }
}

/// Converting a position to the vector form and back yields the position
/// unchanged, exactly: both directions are plain field copies.
pub proof fn lemma_vector_conversion_round_trip(p: LocalPosition)
    ensures
        LocalPosition::spec_from_vector(p.spec_to_vector()) == p,
{
}

impl GlobalPosition {
    /// The default geodetic position: latitude, longitude and altitude all
    /// zero (the bit pattern of positive zero is the integer zero).
    pub open spec fn spec_origin() -> GlobalPosition {
        GlobalPosition { lat: 0, lon: 0, alt: 0 }
    }

    pub fn new(lat: u64, lon: u64, alt: u32) -> (r: GlobalPosition)
        ensures
            r == (GlobalPosition { lat, lon, alt }),
    {
        GlobalPosition { lat, lon, alt }
    }
}

impl Default for GlobalPosition {
    fn default() -> (r: GlobalPosition)
        ensures
            r == GlobalPosition::spec_origin(),
    {
        GlobalPosition { lat: 0, lon: 0, alt: 0 }
    }
}

impl Vector3d {
    pub fn new(x: u64, y: u64, z: u64) -> (r: Vector3d)
        ensures
            r == (Vector3d { x, y, z }),
    {
        Vector3d { x, y, z }
    }
}

} // verus!
