use urdf_scene::controller::{clamp_joint_position, revolute_child_local};
use urdf_scene::fixed::FP_ONE;
use urdf_scene::geometry::MeshSpec;
use urdf_scene::math::{Mat3, Transform, Vec3};
use urdf_scene::model::{
    Collision, Geometry, Inertial, Joint, JointKind, JointLimit, Link, Material, Pose, Rgba,
    Robot, Visual,
};
use urdf_scene::physics::BodyKind;
use urdf_scene::scene::{build_scene, SceneMode};

fn identity_mat() -> Mat3 {
    Mat3 { xx: FP_ONE, xy: 0, xz: 0, yx: 0, yy: FP_ONE, yz: 0, zx: 0, zy: 0, zz: FP_ONE }
}

fn identity_tf() -> Transform {
    Transform { rot: identity_mat(), t: Vec3 { x: 0, y: 0, z: 0 } }
}

fn pose_at(x: i64, y: i64, z: i64) -> Pose {
    Pose { xyz: Vec3 { x, y, z }, rot: identity_mat() }
}

fn bare_inertial() -> Inertial {
    Inertial { origin: pose_at(0, 0, 0), mass: FP_ONE, ixx: 1, ixy: 0, ixz: 0, iyy: 1, iyz: 0, izz: 1 }
}

fn bare_link(name: &str) -> Link {
    Link { name: String::from(name), inertial: bare_inertial(), visuals: vec![], collisions: vec![] }
}

fn revolute_joint(name: &str, parent: &str, child: &str, origin: Pose, axis: Vec3) -> Joint {
    Joint {
        name: String::from(name),
        kind: JointKind::Revolute,
        parent: String::from(parent),
        child: String::from(child),
        origin,
        axis,
        limit: Some(JointLimit { lower: -3_141_592, upper: 3_141_592 }),
        dynamics: None,
    }
}

fn two_link_robot() -> Robot {
    Robot {
        name: String::from("sample"),
        links: vec![bare_link("base"), bare_link("arm")],
        joints: vec![revolute_joint(
            "hinge",
            "base",
            "arm",
            pose_at(0, FP_ONE, 0),
            Vec3 { x: 0, y: 0, z: FP_ONE },
        )],
    }
}

#[test]
fn node_counts_match_links_and_resolvable_joints() {
    let robot = two_link_robot();
    let s = build_scene(&robot, &identity_tf(), SceneMode::RenderHierarchy).unwrap();
    assert_eq!(s.links.len(), 2);
    assert_eq!(s.joints.len(), 1);
    assert_eq!(s.skipped_joints.len(), 0);
}

#[test]
fn two_link_quarter_turn_about_z() {
    // Root "base" and child "arm", a revolute joint of axis (0, 0, 1) and
    // origin translation (0, 1, 0): a slider position of a quarter turn
    // rotates "arm" 90 degrees about z, translation unchanged at (0, 1, 0).
    let robot = two_link_robot();
    let s = build_scene(&robot, &identity_tf(), SceneMode::RenderHierarchy).unwrap();
    let joint_node = &s.joints[0];
    assert_eq!(joint_node.local.t, Vec3 { x: 0, y: FP_ONE, z: 0 });

    let quarter_turn: i64 = 1_570_796;
    let clamped = clamp_joint_position(JointKind::Revolute, quarter_turn);
    assert_eq!(clamped, quarter_turn);
    // Fixed-point cosine and sine of the clamped quarter turn.
    let (c, s_fp) = (0, FP_ONE);
    let local = revolute_child_local(
        &joint_node.local,
        &robot.joints[0].axis,
        c,
        s_fp,
    )
    .unwrap();
    assert_eq!(local.t, Vec3 { x: 0, y: FP_ONE, z: 0 });
    let expect = Mat3 { xx: 0, xy: -FP_ONE, xz: 0, yx: FP_ONE, yy: 0, yz: 0, zx: 0, zy: 0, zz: FP_ONE };
    assert_eq!(local.rot, expect);
}

#[test]
fn zero_angle_keeps_rest_transform() {
    let robot = two_link_robot();
    let s = build_scene(&robot, &identity_tf(), SceneMode::RenderHierarchy).unwrap();
    let joint_node = &s.joints[0];
    let local = revolute_child_local(
        &joint_node.local,
        &robot.joints[0].axis,
        FP_ONE,
        0,
    )
    .unwrap();
    assert_eq!(local, joint_node.local);
}

#[test]
fn dangling_parent_skips_joint_but_keeps_child() {
    // A joint whose parent name is not in the link list is skipped with a
    // warning; the child link is still instantiated, unconnected.
    let robot = Robot {
        name: String::from("sample"),
        links: vec![bare_link("base"), bare_link("arm")],
        joints: vec![revolute_joint(
            "hinge",
            "ghost",
            "arm",
            pose_at(0, FP_ONE, 0),
            Vec3 { x: 0, y: 0, z: FP_ONE },
        )],
    };
    let s = build_scene(&robot, &identity_tf(), SceneMode::RenderHierarchy).unwrap();
    assert_eq!(s.links.len(), 2);
    assert_eq!(s.joints.len(), 0);
    assert_eq!(s.skipped_joints, vec![0]);
    assert_eq!(s.links[1].transform, identity_tf());
}

#[test]
fn box_visual_keeps_full_extents() {
    // A box of size (1, 2, 3) produces a cuboid mesh with full extents
    // exactly (1, 2, 3), not half-extents.
    let mut link = bare_link("base");
    link.visuals.push(Visual {
        origin: pose_at(0, 0, 0),
        geometry: Geometry::Cuboid {
            size: Vec3 { x: FP_ONE, y: 2 * FP_ONE, z: 3 * FP_ONE },
        },
        material: None,
    });
    let robot = Robot { name: String::from("sample"), links: vec![link], joints: vec![] };
    let s = build_scene(&robot, &identity_tf(), SceneMode::RenderHierarchy).unwrap();
    let mesh = s.links[0].visuals[0].mesh.clone().unwrap();
    assert_eq!(
        mesh,
        MeshSpec::CuboidMesh { extents: Vec3 { x: FP_ONE, y: 2 * FP_ONE, z: 3 * FP_ONE } },
    );
}

#[test]
fn cylinder_half_height_is_half_the_length() {
    let mut link = bare_link("base");
    link.collisions.push(Collision {
        origin: pose_at(0, 0, 0),
        geometry: Geometry::Cylinder { radius: 500_000, length: 3_000_000 },
    });
    let robot = Robot { name: String::from("sample"), links: vec![link], joints: vec![] };
    let s = build_scene(&robot, &identity_tf(), SceneMode::RenderHierarchy).unwrap();
    assert_eq!(
        s.links[0].collisions[0].mesh.clone().unwrap(),
        MeshSpec::CylinderMesh { radius: 500_000, half_height: 1_500_000 },
    );
}

#[test]
fn unsupported_geometry_attaches_nothing() {
    let mut link = bare_link("base");
    link.visuals.push(Visual {
        origin: pose_at(0, 0, 0),
        geometry: Geometry::Unsupported,
        material: None,
    });
    let robot = Robot { name: String::from("sample"), links: vec![link], joints: vec![] };
    let s = build_scene(&robot, &identity_tf(), SceneMode::RenderHierarchy).unwrap();
    assert_eq!(s.links[0].visuals.len(), 1);
    assert!(s.links[0].visuals[0].mesh.is_none());
}

#[test]
fn texture_reference_falls_back_to_gray() {
    let mut link = bare_link("base");
    link.visuals.push(Visual {
        origin: pose_at(0, 0, 0),
        geometry: Geometry::Sphere { radius: FP_ONE },
        material: Some(Material {
            color: Some(Rgba { r: FP_ONE, g: 0, b: 0, a: FP_ONE }),
            texture: Some(String::from("wood.png")),
        }),
    });
    let robot = Robot { name: String::from("sample"), links: vec![link], joints: vec![] };
    let s = build_scene(&robot, &identity_tf(), SceneMode::RenderHierarchy).unwrap();
    let v = &s.links[0].visuals[0];
    assert!(v.texture_fallback);
    assert_eq!(v.color, Rgba { r: 800_000, g: 800_000, b: 800_000, a: FP_ONE });
}

#[test]
fn plain_color_is_kept() {
    let mut link = bare_link("base");
    link.visuals.push(Visual {
        origin: pose_at(0, 0, 0),
        geometry: Geometry::Sphere { radius: FP_ONE },
        material: Some(Material {
            color: Some(Rgba { r: FP_ONE, g: 0, b: 0, a: FP_ONE }),
            texture: None,
        }),
    });
    let robot = Robot { name: String::from("sample"), links: vec![link], joints: vec![] };
    let s = build_scene(&robot, &identity_tf(), SceneMode::RenderHierarchy).unwrap();
    let v = &s.links[0].visuals[0];
    assert!(!v.texture_fallback);
    assert_eq!(v.color, Rgba { r: FP_ONE, g: 0, b: 0, a: FP_ONE });
}

#[test]
fn root_is_kinematic_and_children_dynamic() {
    let robot = two_link_robot();
    let s = build_scene(&robot, &identity_tf(), SceneMode::PhysicsWorld).unwrap();
    assert_eq!(s.links[0].body, BodyKind::KinematicBase);
    assert_eq!(s.links[1].body, BodyKind::Dynamic);
}

#[test]
fn physics_world_transforms_compose_along_the_chain() {
    let robot = Robot {
        name: String::from("sample"),
        links: vec![bare_link("base"), bare_link("arm"), bare_link("hand")],
        joints: vec![
            revolute_joint("j1", "base", "arm", pose_at(0, FP_ONE, 0), Vec3 { x: 0, y: 0, z: FP_ONE }),
            revolute_joint("j2", "arm", "hand", pose_at(0, FP_ONE, 0), Vec3 { x: 0, y: 0, z: FP_ONE }),
        ],
    };
    let base = Transform { rot: identity_mat(), t: Vec3 { x: FP_ONE, y: 0, z: 0 } };
    let s = build_scene(&robot, &base, SceneMode::PhysicsWorld).unwrap();
    assert_eq!(s.links[0].transform.t, Vec3 { x: FP_ONE, y: 0, z: 0 });
    assert_eq!(s.links[1].transform.t, Vec3 { x: FP_ONE, y: FP_ONE, z: 0 });
    assert_eq!(s.links[2].transform.t, Vec3 { x: FP_ONE, y: 2 * FP_ONE, z: 0 });
}

#[test]
fn physics_build_reports_transform_overflow() {
    // A joint origin at the edge of the rotation bound: composing the
    // world transform leaves the fixed-point bounds, so the physics build
    // yields nothing while the render build still succeeds.
    let lim = urdf_scene::math::ROT_LIM;
    let extreme = Mat3 { xx: lim, xy: lim, xz: lim, yx: lim, yy: lim, yz: lim, zx: lim, zy: lim, zz: lim };
    let mut robot = two_link_robot();
    robot.joints[0].origin.rot = extreme;
    let base = Transform { rot: extreme, t: Vec3 { x: 0, y: 0, z: 0 } };
    assert!(build_scene(&robot, &base, SceneMode::PhysicsWorld).is_none());
    assert!(build_scene(&robot, &base, SceneMode::RenderHierarchy).is_some());
}

#[test]
fn rebuilding_the_same_description_gives_the_same_scene() {
    // Determinism: building the scene twice from the same description
    // yields identical hierarchy shape and identical rest transforms.
    let robot = two_link_robot();
    let base = Transform { rot: identity_mat(), t: Vec3 { x: 0, y: 0, z: FP_ONE } };
    let s1 = build_scene(&robot, &base, SceneMode::RenderHierarchy).unwrap();
    let s2 = build_scene(&robot, &base, SceneMode::RenderHierarchy).unwrap();
    assert_eq!(s1, s2);
    let p1 = build_scene(&robot, &base, SceneMode::PhysicsWorld).unwrap();
    let p2 = build_scene(&robot, &base, SceneMode::PhysicsWorld).unwrap();
    assert_eq!(p1, p2);
}
