use mission_model::{
    ControlRequest, ControlResponse, Duration, GlobalPosition, IControlRequest, IControlResponse,
    IGlobalPosition, ILocalPosition, IMissionStep, IMissionUpdate, IYaw, Interface, LocalPosition,
    MissionItem, MissionNode, MissionParams, MissionPlan, Uid, Vector3d, Waypoint,
};

fn sample_params() -> MissionParams {
    MissionParams {
        target_velocity: Vector3d::new(
            (1.0f64).to_bits(),
            (2.0f64).to_bits(),
            (3.0f64).to_bits(),
        ),
        target_acceleration: Vector3d::new(
            (0.5f64).to_bits(),
            (0.25f64).to_bits(),
            (-0.75f64).to_bits(),
        ),
        target_jerk: Vector3d::new(0, (4.5f64).to_bits(), (9.0f64).to_bits()),
        disable_yaw: true,
    }
}

fn sample_plan() -> MissionPlan {
    let nodes = vec![
        MissionNode::new(Uid::new(1), MissionItem::Init),
        MissionNode::new(
            Uid::new(2),
            MissionItem::Takeoff { altitude: (10.0f64).to_bits() },
        ),
        MissionNode::new(
            Uid::new(3),
            MissionItem::Waypoint(Waypoint::LocalOffset(Vector3d::new(
                (1.5f64).to_bits(),
                (-2.5f64).to_bits(),
                (3.5f64).to_bits(),
            ))),
        ),
        MissionNode::new(
            Uid::new(4),
            MissionItem::Waypoint(Waypoint::GlobalFixedHeight {
                lat: (47.5f64).to_bits(),
                lon: (9.25f64).to_bits(),
                alt: (440.0f64).to_bits(),
            }),
        ),
        MissionNode::new(
            Uid::new(5),
            MissionItem::Waypoint(Waypoint::GlobalRelativeHeight {
                lat: (47.5f64).to_bits(),
                lon: (9.25f64).to_bits(),
                height_diff: (-3.0f64).to_bits(),
            }),
        ),
        MissionNode::new(Uid::new(6), MissionItem::Delay(Duration::new(3, 500_000_000))),
        MissionNode::new(Uid::new(7), MissionItem::FindSafeSpot),
        MissionNode::new(Uid::new(8), MissionItem::Transition),
        MissionNode::new(Uid::new(9), MissionItem::Land),
        MissionNode::new(Uid::new(10), MissionItem::PrecLand),
        MissionNode::new(Uid::new(11), MissionItem::End),
    ];
    MissionPlan::new(Uid::new(0xb7e4c1a2u128 << 96 | 42), nodes, sample_params())
}

#[test]
fn local_position_round_trip() {
    let p = LocalPosition::new(
        (1.5f32).to_bits(),
        (-2.25f32).to_bits(),
        (0.0f32).to_bits(),
    );
    let bytes = ILocalPosition::encode(&p);
    assert_eq!(bytes.len(), 12);
    let decoded = ILocalPosition::decode(&bytes).unwrap();
    assert_eq!(decoded, p);
}

#[test]
fn global_position_round_trip() {
    let g = GlobalPosition::new(
        (47.123456f64).to_bits(),
        (-9.654321f64).to_bits(),
        (440.5f32).to_bits(),
    );
    let bytes = IGlobalPosition::encode(&g);
    assert_eq!(bytes.len(), 20);
    let decoded = IGlobalPosition::decode(&bytes).unwrap();
    assert_eq!(decoded, g);
}

#[test]
fn yaw_round_trip() {
    let yaw = (3.14159f32).to_bits();
    let bytes = IYaw::encode(&yaw);
    assert_eq!(bytes.len(), 4);
    let decoded = IYaw::decode(&bytes).unwrap();
    assert_eq!(decoded, yaw);
    assert_eq!(f32::from_bits(decoded), 3.14159f32);
}

#[test]
fn mission_step_round_trip() {
    for step in [0i32, 1, -1, 7, -2_000_000_000, i32::MAX, i32::MIN] {
        let bytes = IMissionStep::encode(&step);
        assert_eq!(bytes.len(), 4);
        let decoded = IMissionStep::decode(&bytes).unwrap();
        assert_eq!(decoded, step);
    }
}

#[test]
fn control_request_round_trip() {
    for req in [
        ControlRequest::FetchMissionPlan,
        ControlRequest::PauseResume(true),
        ControlRequest::PauseResume(false),
    ] {
        let bytes = IControlRequest::encode(&req);
        let decoded = IControlRequest::decode(&bytes).unwrap();
        assert_eq!(decoded, req);
    }
}

#[test]
fn control_response_round_trip() {
    let resp = ControlResponse::PauseResume(true);
    let bytes = IControlResponse::encode(&resp);
    let decoded = IControlResponse::decode(&bytes).unwrap();
    assert!(decoded == resp);

    let resp = ControlResponse::SendMissionPlan(sample_plan());
    let bytes = IControlResponse::encode(&resp);
    let decoded = IControlResponse::decode(&bytes).unwrap();
    assert!(decoded == resp);
}

#[test]
fn mission_plan_round_trip() {
    let plan = sample_plan();
    let bytes = IMissionUpdate::encode(&plan);
    let decoded = IMissionUpdate::decode(&bytes).unwrap();
    assert!(decoded == plan);
}

#[test]
fn empty_plan_round_trip() {
    let plan = MissionPlan::new(Uid::new(99), Vec::new(), sample_params());
    let bytes = IMissionUpdate::encode(&plan);
    let decoded = IMissionUpdate::decode(&bytes).unwrap();
    assert!(decoded == plan);
    assert_eq!(decoded.nodes.len(), 0);
}

#[test]
fn decode_rejects_garbage() {
    let garbage = vec![0xffu8, 0xee, 0xdd];
    assert!(ILocalPosition::decode(&garbage).is_err());
    assert!(IGlobalPosition::decode(&garbage).is_err());
    assert!(IYaw::decode(&garbage).is_err());
    assert!(IControlRequest::decode(&garbage).is_err());
    assert!(IControlResponse::decode(&garbage).is_err());
    assert!(IMissionStep::decode(&garbage).is_err());
    assert!(IMissionUpdate::decode(&garbage).is_err());
}

#[test]
fn decode_rejects_empty() {
    let empty: Vec<u8> = Vec::new();
    assert!(ILocalPosition::decode(&empty).is_err());
    assert!(IGlobalPosition::decode(&empty).is_err());
    assert!(IYaw::decode(&empty).is_err());
    assert!(IControlRequest::decode(&empty).is_err());
    assert!(IControlResponse::decode(&empty).is_err());
    assert!(IMissionStep::decode(&empty).is_err());
    assert!(IMissionUpdate::decode(&empty).is_err());
}

#[test]
fn decode_rejects_trailing_bytes() {
    let p = LocalPosition::new(1, 2, 3);
    let mut bytes = ILocalPosition::encode(&p);
    bytes.push(0);
    assert!(ILocalPosition::decode(&bytes).is_err());

    let mut bytes = IMissionUpdate::encode(&sample_plan());
    bytes.push(7);
    assert!(IMissionUpdate::decode(&bytes).is_err());
}

#[test]
fn decode_rejects_bad_tags() {
    assert!(IControlRequest::decode(&vec![9u8]).is_err());
    assert!(IControlResponse::decode(&vec![9u8]).is_err());
    // A boolean byte may only be 0 or 1.
    assert!(IControlRequest::decode(&vec![1u8, 2u8]).is_err());
}

#[test]
fn decode_rejects_truncated_plan() {
    let bytes = IMissionUpdate::encode(&sample_plan());
    let truncated: Vec<u8> = bytes[..bytes.len() - 1].to_vec();
    assert!(IMissionUpdate::decode(&truncated).is_err());
}

#[test]
fn topics_are_exact() {
    assert_eq!(ILocalPosition::topic(), "local_position");
    assert_eq!(IGlobalPosition::topic(), "global_position");
    assert_eq!(IYaw::topic(), "yaw");
    assert_eq!(IControlRequest::topic(), "control/in");
    assert_eq!(IControlResponse::topic(), "control/out");
    assert_eq!(IMissionStep::topic(), "mission/step");
    assert_eq!(IMissionUpdate::topic(), "mission/update");
}

#[test]
fn topics_are_pairwise_distinct() {
    let topics = [
        ILocalPosition::topic(),
        IGlobalPosition::topic(),
        IYaw::topic(),
        IControlRequest::topic(),
        IControlResponse::topic(),
        IMissionStep::topic(),
        IMissionUpdate::topic(),
    ];
    for i in 0..topics.len() {
        for j in 0..topics.len() {
            if i != j {
                assert_ne!(topics[i], topics[j]);
            }
        }
    }
}

#[test]
fn decode_rejects_corrupted_inner_tag() {
    let plan = MissionPlan::new(
        Uid::new(1),
        vec![MissionNode::new(
            Uid::new(2),
            MissionItem::Waypoint(Waypoint::LocalOffset(Vector3d::new(1, 2, 3))),
        )],
        sample_params(),
    );
    let mut bytes = IMissionUpdate::encode(&plan);
    // Byte 40 is the node's item tag; byte 41 is the waypoint tag.
    assert_eq!(bytes[40], 2);
    assert_eq!(bytes[41], 0);
    bytes[41] = 9;
    assert!(IMissionUpdate::decode(&bytes).is_err());
}

#[test]
fn decode_rejects_corrupted_boolean_byte() {
    let plan = MissionPlan::new(Uid::new(1), Vec::new(), sample_params());
    let mut bytes = IMissionUpdate::encode(&plan);
    // The last byte is the disable_yaw flag; only 0 and 1 are booleans.
    let last = bytes.len() - 1;
    assert_eq!(bytes[last], 1);
    bytes[last] = 2;
    assert!(IMissionUpdate::decode(&bytes).is_err());
}
