use mission_model::render::u64_text;
use mission_model::{
    Duration, GlobalPosition, LocalPosition, MissionItem, MissionNode, MissionParams, MissionPlan,
    Uid, Vector3d, Waypoint,
};

#[test]
fn vector_conversion_round_trip() {
    let p = LocalPosition::new(
        (1.25f32).to_bits(),
        (-2.5f32).to_bits(),
        (3.75f32).to_bits(),
    );
    let there_and_back = LocalPosition::from_vector(p.to_vector());
    assert_eq!(there_and_back, p);
    let v = p.to_vector();
    assert_eq!(f32::from_bits(v.x), 1.25f32);
    assert_eq!(f32::from_bits(v.y), -2.5f32);
    assert_eq!(f32::from_bits(v.z), 3.75f32);
}

#[test]
fn expand_is_field_order() {
    let p = LocalPosition::new(1, 2, 3);
    assert_eq!(p.expand(), [1u32, 2, 3]);
}

#[test]
fn default_positions_are_origin() {
    let p = LocalPosition::default();
    assert_eq!(f32::from_bits(p.x), 0.0f32);
    assert_eq!(f32::from_bits(p.y), 0.0f32);
    assert_eq!(f32::from_bits(p.z), 0.0f32);
    let g = GlobalPosition::default();
    assert_eq!(f64::from_bits(g.lat), 0.0f64);
    assert_eq!(f64::from_bits(g.lon), 0.0f64);
    assert_eq!(f32::from_bits(g.alt), 0.0f32);
}

#[test]
fn nodes_with_same_item_and_different_ids_are_unequal() {
    let a = MissionNode::new(Uid::new(1), MissionItem::Land);
    let b = MissionNode::new(Uid::new(2), MissionItem::Land);
    assert_eq!(a.item, b.item);
    assert_ne!(a, b);
}

#[test]
fn height_conventions_are_distinct_variants() {
    let lat = (47.5f64).to_bits();
    let lon = (9.25f64).to_bits();
    let alt = (100.0f64).to_bits();
    let fixed = Waypoint::GlobalFixedHeight { lat, lon, alt };
    let relative = Waypoint::GlobalRelativeHeight { lat, lon, height_diff: alt };
    assert_ne!(fixed, relative);
}

#[test]
fn plans_compare_by_id_nodes_and_params() {
    let params = MissionParams {
        target_velocity: Vector3d::new(1, 2, 3),
        target_acceleration: Vector3d::new(4, 5, 6),
        target_jerk: Vector3d::new(7, 8, 9),
        disable_yaw: false,
    };
    let nodes = vec![MissionNode::new(Uid::new(5), MissionItem::Init)];
    let a = MissionPlan::new(Uid::new(1), nodes.clone(), params);
    let b = MissionPlan::new(Uid::new(1), nodes.clone(), params);
    let c = MissionPlan::new(Uid::new(2), nodes, params);
    assert!(a == b);
    assert!(a != c);
    let d = MissionPlan::new(
        Uid::new(1),
        vec![MissionNode::new(Uid::new(6), MissionItem::Init)],
        params,
    );
    assert!(a != d);
}

#[test]
fn decimal_text_is_exact() {
    assert_eq!(u64_text(0), "0");
    assert_eq!(u64_text(7), "7");
    assert_eq!(u64_text(10), "10");
    assert_eq!(u64_text(500_000_000), "500000000");
    assert_eq!(u64_text(u64::MAX), "18446744073709551615");
}

#[test]
fn uid_prefix_is_first_eight_hex_chars() {
    let id = Uid::new(0xb7e4c1a2u128 << 96 | 12345);
    assert_eq!(id.prefix_text(), "b7e4c1a2");
    let id = Uid::new(0xdeadbeefu128 << 96);
    assert_eq!(id.prefix_text(), "deadbeef");
    let id = Uid::new(0);
    assert_eq!(id.prefix_text(), "00000000");
}

#[test]
fn rendering_matches_expected_form() {
    let params = MissionParams {
        target_velocity: Vector3d::new(0, 0, 0),
        target_acceleration: Vector3d::new(0, 0, 0),
        target_jerk: Vector3d::new(0, 0, 0),
        disable_yaw: false,
    };
    let nodes = vec![
        MissionNode::new(Uid::new(17), MissionItem::Init),
        MissionNode::new(
            Uid::new(18),
            MissionItem::Takeoff { altitude: (10.0f64).to_bits() },
        ),
    ];
    let plan = MissionPlan::new(Uid::new(0xb7e4c1a2u128 << 96 | 7), nodes, params);
    let nums = vec![Vec::new(), vec![format!("{:?}", 10.0f64)]];
    let text = plan.rendered(&nums);
    assert_eq!(text, "Mission b7e4c1a2 [Init, Takeoff { altitude: 10.0 }]");
}

#[test]
fn rendering_of_each_item_kind() {
    assert_eq!(MissionItem::Init.rendered(&Vec::new()), "Init");
    assert_eq!(MissionItem::FindSafeSpot.rendered(&Vec::new()), "FindSafeSpot");
    assert_eq!(MissionItem::Transition.rendered(&Vec::new()), "Transition");
    assert_eq!(MissionItem::Land.rendered(&Vec::new()), "Land");
    assert_eq!(MissionItem::PrecLand.rendered(&Vec::new()), "PrecLand");
    assert_eq!(MissionItem::End.rendered(&Vec::new()), "End");
    assert_eq!(
        MissionItem::Delay(Duration::new(3, 500_000_000)).rendered(&Vec::new()),
        "Delay(Duration { secs: 3, nanos: 500000000 })"
    );
    let nums = vec![
        format!("{:?}", 1.5f64),
        format!("{:?}", -2.5f64),
        format!("{:?}", 3.5f64),
    ];
    let offset = MissionItem::Waypoint(Waypoint::LocalOffset(Vector3d::new(
        (1.5f64).to_bits(),
        (-2.5f64).to_bits(),
        (3.5f64).to_bits(),
    )));
    assert_eq!(offset.rendered(&nums), "Waypoint(LocalOffset([1.5, -2.5, 3.5]))");
    let fixed = MissionItem::Waypoint(Waypoint::GlobalFixedHeight {
        lat: (1.5f64).to_bits(),
        lon: (-2.5f64).to_bits(),
        alt: (3.5f64).to_bits(),
    });
    assert_eq!(
        fixed.rendered(&nums),
        "Waypoint(GlobalFixedHeight { lat: 1.5, lon: -2.5, alt: 3.5 })"
    );
    let relative = MissionItem::Waypoint(Waypoint::GlobalRelativeHeight {
        lat: (1.5f64).to_bits(),
        lon: (-2.5f64).to_bits(),
        height_diff: (3.5f64).to_bits(),
    });
    assert_eq!(
        relative.rendered(&nums),
        "Waypoint(GlobalRelativeHeight { lat: 1.5, lon: -2.5, height_diff: 3.5 })"
    );
}

#[test]
fn rendering_of_empty_plan() {
    let params = MissionParams {
        target_velocity: Vector3d::new(0, 0, 0),
        target_acceleration: Vector3d::new(0, 0, 0),
        target_jerk: Vector3d::new(0, 0, 0),
        disable_yaw: true,
    };
    let plan = MissionPlan::new(Uid::new(0x0123abcdu128 << 96), Vec::new(), params);
    assert_eq!(plan.rendered(&Vec::new()), "Mission 0123abcd []");
}
