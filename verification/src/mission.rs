//! The mission data model: action items, identified nodes, kinematic
//! parameters, and the plan that aggregates them.
use vstd::prelude::*;
use crate::geometry::Vector3d;

verus! {

/// A 128-bit unique identifier.  `value` carries the identifier's bits in
/// canonical numeric order: the highest-order byte of `value` is the first
/// byte of the identifier's text form.
#[derive(Clone, Copy, Debug, PartialEq, Eq, Structural)]
pub struct Uid {
    pub value: u128,
}

impl Uid {
    pub fn new(value: u128) -> (r: Uid)
        ensures
            r == (Uid { value }),
    {
        Uid { value }
    }
}

/// A span of time: whole seconds plus a nanosecond remainder.
#[derive(Clone, Copy, Debug, PartialEq, Eq, Structural)]
pub struct Duration {
    pub secs: u64,
    pub nanos: u32,
}

impl Duration {
    pub fn new(secs: u64, nanos: u32) -> (r: Duration)
        ensures
            r == (Duration { secs, nanos }),
    {
        Duration { secs, nanos }
    }
}

/// A target position for a waypoint, in one of three reference frames.
/// The fixed-height and relative-height variants differ only in intended
/// interpretation, never in structure, and are deliberately distinct.
#[derive(Clone, Copy, Debug, PartialEq, Eq, Structural)]
pub enum Waypoint {
    /// An offset in the vehicle-local frame, meters, relative to a
    /// reference pose resolved externally.
    LocalOffset(Vector3d),
    /// Latitude and longitude in degrees, altitude absolute in meters.
    GlobalFixedHeight { lat: u64, lon: u64, alt: u64 },
    /// Latitude and longitude in degrees, height difference in meters
    /// relative to a reference altitude resolved by the executor.
    GlobalRelativeHeight { lat: u64, lon: u64, height_diff: u64 },
}

/// One action of a mission, as the flight controller executes it.
/// No ordering constraint among items is enforced structurally: sequence
/// validity is an external concern.
#[derive(Clone, Copy, Debug, PartialEq, Eq, Structural)]
pub enum MissionItem {
    Init,
    /// `altitude` is the bit pattern of a double-precision height in meters.
    Takeoff { altitude: u64 },
    Waypoint(Waypoint),
    Delay(Duration),
    FindSafeSpot,
    Transition,
    Land,
    PrecLand,
    End,
}

/// An identified mission action.  Identity is independent of content: two
/// nodes with identical items but different ids are distinct entities.
#[derive(Clone, Copy, Debug, PartialEq, Eq, Structural)]
pub struct MissionNode {
    pub id: Uid,
    pub item: MissionItem,
}

impl MissionNode {
    pub fn new(id: Uid, item: MissionItem) -> (r: MissionNode)
        ensures
            r == (MissionNode { id, item }),
    {
        MissionNode { id, item }
    }
}

/// Mission-wide kinematic limits, applied uniformly to all waypoint nodes
/// of a plan and interpreted by the flight controller.
#[derive(Clone, Copy, Debug, PartialEq, Eq, Structural)]
pub struct MissionParams {
    pub target_velocity: Vector3d,
    pub target_acceleration: Vector3d,
    pub target_jerk: Vector3d,
    pub disable_yaw: bool,
}

/// An identified, order-significant mission: the node sequence is the
/// execution order.  A plan is created whole and treated as immutable once
/// published; a new plan carries a new id.
#[derive(Clone, Debug)]
pub struct MissionPlan {
    pub id: Uid,
    pub nodes: Vec<MissionNode>,
    pub params: MissionParams,
}

/// The mathematical model of a plan: the node sequence abstracted to a
/// `Seq`.
pub struct PlanModel {
    pub id: Uid,
    pub nodes: Seq<MissionNode>,
    pub params: MissionParams,
}

impl View for MissionPlan {
    type V = PlanModel;

    open spec fn view(&self) -> PlanModel {
        PlanModel { id: self.id, nodes: self.nodes@, params: self.params }
    }
}

impl MissionPlan {
    pub fn new(id: Uid, nodes: Vec<MissionNode>, params: MissionParams) -> (r: MissionPlan)
        ensures
            r@ == (PlanModel { id, nodes: nodes@, params }),
    {
        MissionPlan { id, nodes, params }
    }
}

impl PartialEq for MissionPlan {
    /// Two plans are equal when their ids, node sequences and parameters
    /// all agree.
    fn eq(&self, other: &MissionPlan) -> (r: bool) {
        if self.id == other.id && self.params == other.params
            && self.nodes.len() == other.nodes.len() {
            let n: usize = self.nodes.len();
            let mut i: usize = 0;
            while i < n
                invariant
                    n == self.nodes@.len(),
                    n == other.nodes@.len(),
                    i <= n,
                    forall|j: int| 0 <= j < i ==> self.nodes@[j] == other.nodes@[j],
                decreases n - i,
            {
                if self.nodes[i] != other.nodes[i] {
                    return false;
                }
                i += 1;
            }
            proof {
                assert(self.nodes@ =~= other.nodes@);
            }
            true
        } else {
            false
        }
    }
}

impl vstd::std_specs::cmp::PartialEqSpecImpl for MissionPlan {
    open spec fn obeys_eq_spec() -> bool {
        true
    }

    open spec fn eq_spec(&self, other: &MissionPlan) -> bool {
        self@ == other@
    }
}

/// Node identity is independent of content: two nodes with the same item
/// but different ids are unequal.
pub proof fn lemma_node_identity_independent_of_item(a: MissionNode, b: MissionNode)
    requires
        a.item == b.item,
        a.id != b.id,
    ensures
        a != b,
{
}

/// The two geodetic waypoint conventions are distinct variants: a
/// fixed-height and a relative-height waypoint are unequal even with
/// numerically identical fields.
pub proof fn lemma_waypoint_conventions_distinct(a: Waypoint, b: Waypoint)
    requires
        a is GlobalFixedHeight,
        b is GlobalRelativeHeight,
    ensures
        a != b,
{
}

} // verus!
