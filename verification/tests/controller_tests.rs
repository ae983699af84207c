use urdf_scene::controller::{
    clamp_joint_position, prismatic_child_local, prismatic_translation, revolute_child_local,
    slider_enabled, JointControl, PI_FP,
};
use urdf_scene::fixed::FP_ONE;
use urdf_scene::math::{Mat3, Transform, Vec3};
use urdf_scene::model::JointKind;

fn identity_mat() -> Mat3 {
    Mat3 { xx: FP_ONE, xy: 0, xz: 0, yx: 0, yy: FP_ONE, yz: 0, zx: 0, zy: 0, zz: FP_ONE }
}

#[test]
fn rotational_positions_clamp_to_half_turn() {
    assert_eq!(clamp_joint_position(JointKind::Revolute, 9_000_000), PI_FP);
    assert_eq!(clamp_joint_position(JointKind::Revolute, -9_000_000), -PI_FP);
    assert_eq!(clamp_joint_position(JointKind::Continuous, 1_000), 1_000);
}

#[test]
fn prismatic_positions_clamp_to_one_unit() {
    assert_eq!(clamp_joint_position(JointKind::Prismatic, 2 * FP_ONE), FP_ONE);
    assert_eq!(clamp_joint_position(JointKind::Prismatic, -2 * FP_ONE), -FP_ONE);
    assert_eq!(clamp_joint_position(JointKind::Prismatic, 123), 123);
}

#[test]
fn kinds_without_a_degree_of_freedom_stay_at_zero() {
    assert_eq!(clamp_joint_position(JointKind::Fixed, 55), 0);
    assert_eq!(clamp_joint_position(JointKind::Unsupported, -55), 0);
}

#[test]
fn sliders_enabled_only_for_movable_kinds() {
    assert!(slider_enabled(JointKind::Revolute));
    assert!(slider_enabled(JointKind::Continuous));
    assert!(slider_enabled(JointKind::Prismatic));
    assert!(!slider_enabled(JointKind::Fixed));
    assert!(!slider_enabled(JointKind::Unsupported));
}

#[test]
fn set_position_applies_the_clamp() {
    let mut c = JointControl::new(JointKind::Revolute);
    assert_eq!(c.position, 0);
    c.set_position(9_000_000);
    assert_eq!(c.position, PI_FP);
    c.set_position(-100);
    assert_eq!(c.position, -100);
}

#[test]
fn prismatic_translation_scales_the_unit_axis() {
    // Position d gives child local translation d times the normalized axis.
    let axis = Vec3 { x: 0, y: 0, z: 2 * FP_ONE };
    let t = prismatic_translation(&axis, 250_000).unwrap();
    assert_eq!(t, Vec3 { x: 0, y: 0, z: 250_000 });
}

#[test]
fn prismatic_translation_is_zero_at_rest() {
    let axis = Vec3 { x: 0, y: FP_ONE, z: 0 };
    let t = prismatic_translation(&axis, 0).unwrap();
    assert_eq!(t, Vec3 { x: 0, y: 0, z: 0 });
}

#[test]
fn prismatic_zero_axis_has_no_direction() {
    assert!(prismatic_translation(&Vec3 { x: 0, y: 0, z: 0 }, 100).is_none());
}

#[test]
fn prismatic_rest_keeps_the_origin_transform() {
    let origin = Transform { rot: identity_mat(), t: Vec3 { x: 0, y: FP_ONE, z: 0 } };
    let axis = Vec3 { x: FP_ONE, y: 0, z: 0 };
    let local = prismatic_child_local(&origin, &axis, 0).unwrap();
    assert_eq!(local, origin);
}

#[test]
fn prismatic_displacement_moves_along_the_axis() {
    let origin = Transform { rot: identity_mat(), t: Vec3 { x: 0, y: FP_ONE, z: 0 } };
    let axis = Vec3 { x: FP_ONE, y: 0, z: 0 };
    let local = prismatic_child_local(&origin, &axis, 750_000).unwrap();
    assert_eq!(local.rot, identity_mat());
    assert_eq!(local.t, Vec3 { x: 750_000, y: FP_ONE, z: 0 });
}

#[test]
fn revolute_quarter_turn_about_unnormalized_axis() {
    // The axis is normalized before the axis-angle rotation is built.
    let origin = Transform { rot: identity_mat(), t: Vec3 { x: 0, y: 0, z: 0 } };
    let axis = Vec3 { x: 0, y: 0, z: 7 * FP_ONE };
    let local = revolute_child_local(&origin, &axis, 0, FP_ONE).unwrap();
    let expect = Mat3 { xx: 0, xy: -FP_ONE, xz: 0, yx: FP_ONE, yy: 0, yz: 0, zx: 0, zy: 0, zz: FP_ONE };
    assert_eq!(local.rot, expect);
}

#[test]
fn revolute_zero_axis_has_no_direction() {
    let origin = Transform { rot: identity_mat(), t: Vec3 { x: 0, y: 0, z: 0 } };
    assert!(revolute_child_local(&origin, &Vec3 { x: 0, y: 0, z: 0 }, FP_ONE, 0).is_none());
}
