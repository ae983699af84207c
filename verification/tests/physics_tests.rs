use urdf_scene::fixed::FP_ONE;
use urdf_scene::math::{Mat3, Vec3};
use urdf_scene::model::{Dynamics, Inertial, Joint, JointKind, JointLimit, Pose};
use urdf_scene::physics::{
    bind_joint, filter_manifolds, manifold_retained, mass_properties, Contact, ConstraintSpec,
    JointBinding, Manifold, DEFAULT_CONTACT_THRESHOLD, DEFAULT_DAMPING, SUBSTEP_COUNT,
};

fn identity_mat() -> Mat3 {
    Mat3 { xx: FP_ONE, xy: 0, xz: 0, yx: 0, yy: FP_ONE, yz: 0, zx: 0, zy: 0, zz: FP_ONE }
}

fn pose_at(x: i64, y: i64, z: i64) -> Pose {
    Pose { xyz: Vec3 { x, y, z }, rot: identity_mat() }
}

fn joint_of_kind(kind: JointKind, dynamics: Option<Dynamics>, limit: Option<JointLimit>) -> Joint {
    Joint {
        name: String::from("j"),
        kind,
        parent: String::from("a"),
        child: String::from("b"),
        origin: pose_at(0, 250_000, 0),
        axis: Vec3 { x: 0, y: 0, z: FP_ONE },
        limit,
        dynamics,
    }
}

#[test]
fn mass_properties_assemble_symmetric_inertia() {
    let l = Inertial {
        origin: pose_at(10, 20, 30),
        mass: 2_500_000,
        ixx: 1,
        ixy: 2,
        ixz: 3,
        iyy: 4,
        iyz: 5,
        izz: 6,
    };
    let m = mass_properties(&l);
    assert_eq!(m.mass, 2_500_000);
    assert_eq!(m.com, Vec3 { x: 10, y: 20, z: 30 });
    let i = m.inertia;
    assert_eq!((i.xx, i.yy, i.zz), (1, 4, 6));
    assert_eq!(i.xy, i.yx);
    assert_eq!(i.xz, i.zx);
    assert_eq!(i.yz, i.zy);
    assert_eq!((i.xy, i.xz, i.yz), (2, 3, 5));
}

#[test]
fn revolute_gets_limits_damping_and_zero_compliance() {
    let j = joint_of_kind(
        JointKind::Revolute,
        Some(Dynamics { damping: 5_000_000, friction: 0 }),
        Some(JointLimit { lower: -1_000_000, upper: 1_000_000 }),
    );
    match bind_joint(&j) {
        JointBinding::Native { spec: ConstraintSpec::RevoluteConstraint {
            axis,
            anchor,
            damping,
            compliance,
            limits,
        } } => {
            assert_eq!(axis, Vec3 { x: 0, y: 0, z: FP_ONE });
            assert_eq!(anchor, Vec3 { x: 0, y: 250_000, z: 0 });
            assert_eq!(damping, 5_000_000);
            assert_eq!(compliance, 0);
            assert_eq!(limits, Some(JointLimit { lower: -1_000_000, upper: 1_000_000 }));
        },
        other => panic!("expected a revolute constraint, got {:?}", other),
    }
}

#[test]
fn missing_dynamics_fall_back_to_stiff_damping() {
    let j = joint_of_kind(JointKind::Revolute, None, Some(JointLimit { lower: 0, upper: 0 }));
    match bind_joint(&j) {
        JointBinding::Native { spec: ConstraintSpec::RevoluteConstraint { damping, .. } } => {
            assert_eq!(damping, DEFAULT_DAMPING);
            assert_eq!(DEFAULT_DAMPING, 10_000 * FP_ONE);
        },
        other => panic!("expected a revolute constraint, got {:?}", other),
    }
}

#[test]
fn continuous_has_no_angle_limits() {
    let j = joint_of_kind(
        JointKind::Continuous,
        None,
        Some(JointLimit { lower: -1, upper: 1 }),
    );
    match bind_joint(&j) {
        JointBinding::Native { spec: ConstraintSpec::RevoluteConstraint { limits, .. } } => {
            assert_eq!(limits, None);
        },
        other => panic!("expected a revolute constraint, got {:?}", other),
    }
}

#[test]
fn fixed_welds_the_bodies() {
    let j = joint_of_kind(JointKind::Fixed, None, None);
    assert_eq!(
        bind_joint(&j),
        JointBinding::Native { spec: ConstraintSpec::FixedConstraint },
    );
}

#[test]
fn prismatic_is_controller_driven_gap() {
    let j = joint_of_kind(JointKind::Prismatic, None, None);
    assert_eq!(bind_joint(&j), JointBinding::ControllerDriven);
}

#[test]
fn unsupported_kind_gets_no_binding() {
    let j = joint_of_kind(JointKind::Unsupported, None, None);
    assert_eq!(bind_joint(&j), JointBinding::NoBinding);
}

#[test]
fn filter_discards_shallow_and_keeps_deep_contacts() {
    // Threshold 0.01: a contact of penetration 0.005 is discarded, one of
    // 0.02 is retained.
    assert_eq!(DEFAULT_CONTACT_THRESHOLD, 10_000);
    let shallow = Manifold { contacts: vec![Contact { penetration: 5_000 }] };
    let deep = Manifold { contacts: vec![Contact { penetration: 20_000 }] };
    assert!(!manifold_retained(&shallow, DEFAULT_CONTACT_THRESHOLD));
    assert!(manifold_retained(&deep, DEFAULT_CONTACT_THRESHOLD));
    let kept = filter_manifolds(vec![shallow, deep.clone()], DEFAULT_CONTACT_THRESHOLD);
    assert_eq!(kept, vec![deep]);
}

#[test]
fn filter_goes_by_maximum_penetration() {
    let mixed = Manifold {
        contacts: vec![Contact { penetration: 1 }, Contact { penetration: 20_000 }],
    };
    assert!(manifold_retained(&mixed, DEFAULT_CONTACT_THRESHOLD));
    let empty = Manifold { contacts: vec![] };
    assert!(!manifold_retained(&empty, DEFAULT_CONTACT_THRESHOLD));
}

#[test]
fn stiff_constraints_use_two_hundred_substeps() {
    assert_eq!(SUBSTEP_COUNT, 200);
}

#[test]
fn filter_keeps_order() {
    let a = Manifold { contacts: vec![Contact { penetration: 30_000 }] };
    let b = Manifold { contacts: vec![Contact { penetration: 1 }] };
    let c = Manifold { contacts: vec![Contact { penetration: 10_000 }] };
    let kept = filter_manifolds(
        vec![a.clone(), b, c.clone()],
        DEFAULT_CONTACT_THRESHOLD,
    );
    assert_eq!(kept, vec![a, c]);
}
