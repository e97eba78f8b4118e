//! The request/response protocol pair for fetching and pausing a mission
//! plan.  Only the message shapes are defined here; correlating a response
//! to its request is a transport concern.
use vstd::prelude::*;
use crate::mission::{MissionPlan, PlanModel};

verus! {

/// A request on the control-in channel.  `FetchMissionPlan` pairs with
/// `SendMissionPlan`; `PauseResume(requested)` pairs with
/// `PauseResume(acknowledged)`.
#[derive(Clone, Copy, Debug, PartialEq, Eq, Structural)]
pub enum ControlRequest {
    FetchMissionPlan,
    PauseResume(bool),
}

/// A response on the control-out channel.
#[derive(Clone, Debug)]
pub enum ControlResponse {
    SendMissionPlan(MissionPlan),
    PauseResume(bool),
}

/// The mathematical model of a response, with the carried plan abstracted
/// to its model.
pub enum ResponseModel {
    SendMissionPlan(PlanModel),
    PauseResume(bool),
}

impl View for ControlResponse {
    type V = ResponseModel;

    open spec fn view(&self) -> ResponseModel {
        match self {
            ControlResponse::SendMissionPlan(p) => ResponseModel::SendMissionPlan(p@),
            ControlResponse::PauseResume(b) => ResponseModel::PauseResume(*b),
        }
    }
}

impl PartialEq for ControlResponse {
    /// Two responses are equal when they are the same variant with equal
    /// contents.
    fn eq(&self, other: &ControlResponse) -> (r: bool) {
        match (self, other) {
            (ControlResponse::SendMissionPlan(a), ControlResponse::SendMissionPlan(b)) => a == b,
            (ControlResponse::PauseResume(a), ControlResponse::PauseResume(b)) => a == b,
            _ => false,
        }
    }
}

impl vstd::std_specs::cmp::PartialEqSpecImpl for ControlResponse {
    open spec fn obeys_eq_spec() -> bool {
        true
    }

    open spec fn eq_spec(&self, other: &ControlResponse) -> bool {
        self@ == other@
    }
}

} // verus!
