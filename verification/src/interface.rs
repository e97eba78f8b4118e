//! The interface registry: one marker type per logical channel, binding
//! the channel to its topic string and its payload type.
//!
//! The binding is structural and fixed at compile time: a marker's
//! `topic` is a constant pinned by its contract, and its payload type is
//! the trait's associated `Message` type, so no topic can carry two
//! incompatible schemas within one process.  Every implementation proves
//! the codec laws: decoding inverts encoding, and a successful decode
//! pins the bytes, so malformed bytes surface as `DecodeError`, never as
//! a defaulted payload.
use vstd::prelude::*;
use crate::codec::{
    dec_global_full, dec_local_full, dec_plan_full, dec_request_full, dec_response_full,
    dec_step_full, dec_yaw_full, decode_control_request, decode_control_response,
    decode_global_position, decode_local_position, decode_mission_plan, decode_mission_step,
    decode_yaw, enc_global, enc_local, enc_plan, enc_request, enc_response, enc_step, enc_u32,
    encode_control_request, encode_control_response, encode_global_position,
    encode_local_position, encode_mission_plan, encode_mission_step, encode_yaw,
    lemma_global_decode_pins, lemma_global_round_trip, lemma_local_decode_pins,
    lemma_local_round_trip, lemma_plan_decode_pins, lemma_plan_round_trip,
    lemma_request_decode_pins, lemma_request_round_trip, lemma_response_decode_pins,
    lemma_response_round_trip, lemma_step_decode_pins, lemma_step_round_trip,
    lemma_yaw_decode_pins, lemma_yaw_round_trip, plan_count_ok, DecodeError,
};
use crate::control::{ControlRequest, ControlResponse};
use crate::geometry::{GlobalPosition, LocalPosition};
use crate::mission::MissionPlan;

verus! {

/// A logical channel of the bus: a topic string and a payload type with
/// a verified bidirectional byte schema.
pub trait Interface {
    /// The payload type bound to this channel's topic.
    type Message;

    /// The channel's topic string.
    spec fn spec_topic() -> Seq<char>;

    /// The encoding of a payload value.
    spec fn spec_encode(m: &Self::Message) -> Seq<u8>;

    /// `b` is exactly the encoding of the payload `m`.
    spec fn decode_ok(b: Seq<u8>, m: &Self::Message) -> bool;

    /// The topic this channel publishes and subscribes on.  It is a
    /// constant: every call returns the same pinned string.
    fn topic() -> (r: &'static str)
        ensures
            r@ == Self::spec_topic(),
    ;

    /// Encoding is total: every payload value has a byte form.
    fn encode(m: &Self::Message) -> (r: Vec<u8>)
        ensures
            r@ == Self::spec_encode(m),
    ;

    /// Decoding returns the unique payload whose encoding the buffer is;
    /// bytes that encode no payload are rejected, never coerced or
    /// defaulted.
    fn decode(b: &Vec<u8>) -> (r: Result<Self::Message, DecodeError>)
        ensures
            match r {
                Ok(m) => Self::decode_ok(b@, &m),
                Err(_) => forall|m: Self::Message| !Self::decode_ok(b@, &m),
            },
    ;

    /// Decoding inverts encoding: every payload survives the codec
    /// round trip.
    proof fn lemma_round_trip(m: &Self::Message)
        ensures
            Self::decode_ok(Self::spec_encode(m), m),
    ;

    /// A successful decode pins the bytes: the buffer was exactly the
    /// payload's encoding.
    proof fn lemma_decode_pins_bytes(b: Seq<u8>, m: &Self::Message)
        requires
            Self::decode_ok(b, m),
        ensures
            b == Self::spec_encode(m),
    ;
}

/// The channel carrying the vehicle-local position telemetry.
pub struct ILocalPosition;

/// The channel carrying the geodetic position telemetry.
pub struct IGlobalPosition;

/// The channel carrying the yaw telemetry: a single-precision angle,
/// carried as its bit pattern.
pub struct IYaw;

/// The control-in channel: requests from the flight controller to the
/// planner.
pub struct IControlRequest;

/// The control-out channel: the planner's responses.
pub struct IControlResponse;

/// The channel carrying the index of the node the executing plan is at.
pub struct IMissionStep;

/// The channel carrying a whole mission plan.
pub struct IMissionUpdate;

impl Interface for ILocalPosition {
    type Message = LocalPosition;

    open spec fn spec_topic() -> Seq<char> {
        "local_position"@
    }

    open spec fn spec_encode(m: &LocalPosition) -> Seq<u8> {
        enc_local(*m)
    }

    open spec fn decode_ok(b: Seq<u8>, m: &LocalPosition) -> bool {
        dec_local_full(b) == Some(*m)
    }

    fn topic() -> (r: &'static str) {
        "local_position"
    }

    fn encode(m: &LocalPosition) -> (r: Vec<u8>) {
        encode_local_position(m)
    }

    fn decode(b: &Vec<u8>) -> (r: Result<LocalPosition, DecodeError>) {
        decode_local_position(b)
    }

    proof fn lemma_round_trip(m: &LocalPosition) {
        lemma_local_round_trip(*m);
    }

    proof fn lemma_decode_pins_bytes(b: Seq<u8>, m: &LocalPosition) {
        lemma_local_decode_pins(b, *m);
    }
}

impl Interface for IGlobalPosition {
    type Message = GlobalPosition;

    open spec fn spec_topic() -> Seq<char> {
        "global_position"@
    }

    open spec fn spec_encode(m: &GlobalPosition) -> Seq<u8> {
        enc_global(*m)
    }

    open spec fn decode_ok(b: Seq<u8>, m: &GlobalPosition) -> bool {
        dec_global_full(b) == Some(*m)
    }

    fn topic() -> (r: &'static str) {
        "global_position"
    }

    fn encode(m: &GlobalPosition) -> (r: Vec<u8>) {
        encode_global_position(m)
    }

    fn decode(b: &Vec<u8>) -> (r: Result<GlobalPosition, DecodeError>) {
        decode_global_position(b)
    }

    proof fn lemma_round_trip(m: &GlobalPosition) {
        lemma_global_round_trip(*m);
    }

    proof fn lemma_decode_pins_bytes(b: Seq<u8>, m: &GlobalPosition) {
        lemma_global_decode_pins(b, *m);
    }
}

impl Interface for IYaw {
    type Message = u32;

    open spec fn spec_topic() -> Seq<char> {
        "yaw"@
    }

    open spec fn spec_encode(m: &u32) -> Seq<u8> {
        enc_u32(*m)
    }

    open spec fn decode_ok(b: Seq<u8>, m: &u32) -> bool {
        dec_yaw_full(b) == Some(*m)
    }

    fn topic() -> (r: &'static str) {
        "yaw"
    }

    fn encode(m: &u32) -> (r: Vec<u8>) {
        encode_yaw(*m)
    }

    fn decode(b: &Vec<u8>) -> (r: Result<u32, DecodeError>) {
        decode_yaw(b)
    }

    proof fn lemma_round_trip(m: &u32) {
        lemma_yaw_round_trip(*m);
    }

    proof fn lemma_decode_pins_bytes(b: Seq<u8>, m: &u32) {
        lemma_yaw_decode_pins(b, *m);
    }
}

impl Interface for IControlRequest {
    type Message = ControlRequest;

    open spec fn spec_topic() -> Seq<char> {
        "control/in"@
    }

    open spec fn spec_encode(m: &ControlRequest) -> Seq<u8> {
        enc_request(*m)
    }

    open spec fn decode_ok(b: Seq<u8>, m: &ControlRequest) -> bool {
        dec_request_full(b) == Some(*m)
    }

    fn topic() -> (r: &'static str) {
        "control/in"
    }

    fn encode(m: &ControlRequest) -> (r: Vec<u8>) {
        encode_control_request(m)
    }

    fn decode(b: &Vec<u8>) -> (r: Result<ControlRequest, DecodeError>) {
        decode_control_request(b)
    }

    proof fn lemma_round_trip(m: &ControlRequest) {
        lemma_request_round_trip(*m);
    }

    proof fn lemma_decode_pins_bytes(b: Seq<u8>, m: &ControlRequest) {
        lemma_request_decode_pins(b, *m);
    }
}

impl Interface for IControlResponse {
    type Message = ControlResponse;

    open spec fn spec_topic() -> Seq<char> {
        "control/out"@
    }

    open spec fn spec_encode(m: &ControlResponse) -> Seq<u8> {
        enc_response(m@)
    }

    open spec fn decode_ok(b: Seq<u8>, m: &ControlResponse) -> bool {
        dec_response_full(b) == Some(m@)
    }

    fn topic() -> (r: &'static str) {
        "control/out"
    }

    fn encode(m: &ControlResponse) -> (r: Vec<u8>) {
        encode_control_response(m)
    }

    fn decode(b: &Vec<u8>) -> (r: Result<ControlResponse, DecodeError>) {
        decode_control_response(b)
    }

    proof fn lemma_round_trip(m: &ControlResponse) {
        broadcast use vstd::std_specs::vec::axiom_spec_len;

        match m {
            ControlResponse::SendMissionPlan(pl) => {
                assert(pl.nodes@.len() == vstd::std_specs::vec::spec_vec_len(&pl.nodes));
            },
            ControlResponse::PauseResume(_) => {},
        }
        lemma_response_round_trip(m@);
    }

    proof fn lemma_decode_pins_bytes(b: Seq<u8>, m: &ControlResponse) {
        lemma_response_decode_pins(b, m@);
    }
}

impl Interface for IMissionStep {
    type Message = i32;

    open spec fn spec_topic() -> Seq<char> {
        "mission/step"@
    }

    open spec fn spec_encode(m: &i32) -> Seq<u8> {
        enc_step(*m)
    }

    open spec fn decode_ok(b: Seq<u8>, m: &i32) -> bool {
        dec_step_full(b) == Some(*m)
    }

    fn topic() -> (r: &'static str) {
        "mission/step"
    }

    fn encode(m: &i32) -> (r: Vec<u8>) {
        encode_mission_step(*m)
    }

    fn decode(b: &Vec<u8>) -> (r: Result<i32, DecodeError>) {
        decode_mission_step(b)
    }

    proof fn lemma_round_trip(m: &i32) {
        lemma_step_round_trip(*m);
    }

    proof fn lemma_decode_pins_bytes(b: Seq<u8>, m: &i32) {
        lemma_step_decode_pins(b, *m);
    }
}

impl Interface for IMissionUpdate {
    type Message = MissionPlan;

    open spec fn spec_topic() -> Seq<char> {
        "mission/update"@
    }

    open spec fn spec_encode(m: &MissionPlan) -> Seq<u8> {
        enc_plan(m@)
    }

    open spec fn decode_ok(b: Seq<u8>, m: &MissionPlan) -> bool {
        dec_plan_full(b) == Some(m@)
    }

    fn topic() -> (r: &'static str) {
        "mission/update"
    }

    fn encode(m: &MissionPlan) -> (r: Vec<u8>) {
        encode_mission_plan(m)
    }

    fn decode(b: &Vec<u8>) -> (r: Result<MissionPlan, DecodeError>) {
        decode_mission_plan(b)
    }

    proof fn lemma_round_trip(m: &MissionPlan) {
        broadcast use vstd::std_specs::vec::axiom_spec_len;

        assert(m.nodes@.len() == vstd::std_specs::vec::spec_vec_len(&m.nodes));
        assert(plan_count_ok(m@));
        lemma_plan_round_trip(m@);
    }

    proof fn lemma_decode_pins_bytes(b: Seq<u8>, m: &MissionPlan) {
        lemma_plan_decode_pins(b, m@);
    }
}

/// No two channels share a topic string: the seven topics are pairwise
/// distinct.
pub proof fn lemma_topics_distinct()
    ensures
        ILocalPosition::spec_topic() != IGlobalPosition::spec_topic(),
        ILocalPosition::spec_topic() != IYaw::spec_topic(),
        ILocalPosition::spec_topic() != IControlRequest::spec_topic(),
        ILocalPosition::spec_topic() != IControlResponse::spec_topic(),
        ILocalPosition::spec_topic() != IMissionStep::spec_topic(),
        ILocalPosition::spec_topic() != IMissionUpdate::spec_topic(),
        IGlobalPosition::spec_topic() != IYaw::spec_topic(),
        IGlobalPosition::spec_topic() != IControlRequest::spec_topic(),
        IGlobalPosition::spec_topic() != IControlResponse::spec_topic(),
        IGlobalPosition::spec_topic() != IMissionStep::spec_topic(),
        IGlobalPosition::spec_topic() != IMissionUpdate::spec_topic(),
        IYaw::spec_topic() != IControlRequest::spec_topic(),
        IYaw::spec_topic() != IControlResponse::spec_topic(),
        IYaw::spec_topic() != IMissionStep::spec_topic(),
        IYaw::spec_topic() != IMissionUpdate::spec_topic(),
        IControlRequest::spec_topic() != IControlResponse::spec_topic(),
        IControlRequest::spec_topic() != IMissionStep::spec_topic(),
        IControlRequest::spec_topic() != IMissionUpdate::spec_topic(),
        IControlResponse::spec_topic() != IMissionStep::spec_topic(),
        IControlResponse::spec_topic() != IMissionUpdate::spec_topic(),
        IMissionStep::spec_topic() != IMissionUpdate::spec_topic(),
{
    reveal_strlit("local_position");
    reveal_strlit("global_position");
    reveal_strlit("yaw");
    reveal_strlit("control/in");
    reveal_strlit("control/out");
    reveal_strlit("mission/step");
    reveal_strlit("mission/update");
    assert(("local_position")@.len() == 14);
    assert(("global_position")@.len() == 15);
    assert(("yaw")@.len() == 3);
    assert(("control/in")@.len() == 10);
    assert(("control/out")@.len() == 11);
    assert(("mission/step")@.len() == 12);
    assert(("mission/update")@.len() == 14);
    assert(("local_position")@[0] == 'l');
    assert(("mission/update")@[0] == 'm');
}

} // verus!
