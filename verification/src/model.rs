//! The in-memory robot description: named links joined by typed joints,
//! each link carrying inertial data and visual and collision geometry.
//! The model is built once by the host shell from the description file and
//! is read-only afterwards. Orientations arrive as fixed-point rotation
//! matrices: the loader turns the format's roll-pitch-yaw angles into one
//! before handing the pose over.

use vstd::prelude::*;

use crate::math::{mat_bounded, vec_bounded, Mat3, SpecTransform, Transform, Vec3, AXIS_LIM, ROT_LIM, TR_LIM};

verus! {

/// A color with fixed-point channels in `[0, FP_ONE]`.
#[derive(Clone, Copy, PartialEq, Eq, Structural, Debug)]
pub struct Rgba {
    pub r: i64,
    pub g: i64,
    pub b: i64,
    pub a: i64,
}

/// A position and orientation offset: a translation plus a rotation matrix.
#[derive(Clone, Copy, PartialEq, Eq, Structural, Debug)]
pub struct Pose {
    pub xyz: Vec3,
    pub rot: Mat3,
}

/// The geometry variants the description format carries. Variants of the
/// format beyond these four are legal input but unsupported here, and are
/// kept as `Unsupported` so the resolver can skip them with a warning.
#[derive(Clone, PartialEq, Eq, Debug)]
pub enum Geometry {
    Cuboid { size: Vec3 },
    Cylinder { radius: i64, length: i64 },
    Sphere { radius: i64 },
    MeshFile { filename: String, scale: Option<Vec3> },
    Unsupported,
}

/// A visual's material: a base color, or a texture reference, which this
/// library does not support and replaces with the default color.
#[derive(Clone, PartialEq, Eq, Debug)]
pub struct Material {
    pub color: Option<Rgba>,
    pub texture: Option<String>,
}

/// A renderable entry of a link.
#[derive(Clone, PartialEq, Eq, Debug)]
pub struct Visual {
    pub origin: Pose,
    pub geometry: Geometry,
    pub material: Option<Material>,
}

/// A collidable entry of a link.
#[derive(Clone, PartialEq, Eq, Debug)]
pub struct Collision {
    pub origin: Pose,
    pub geometry: Geometry,
}

/// Inertial data of a link: a mass scalar and the six independent
/// components of the symmetric inertia tensor, with their origin offset.
#[derive(Clone, Copy, PartialEq, Eq, Structural, Debug)]
pub struct Inertial {
    pub origin: Pose,
    pub mass: i64,
    pub ixx: i64,
    pub ixy: i64,
    pub ixz: i64,
    pub iyy: i64,
    pub iyz: i64,
    pub izz: i64,
}

/// A rigid segment of the robot.
#[derive(Clone, PartialEq, Eq, Debug)]
pub struct Link {
    pub name: String,
    pub inertial: Inertial,
    pub visuals: Vec<Visual>,
    pub collisions: Vec<Collision>,
}

/// The joint types the format carries; anything else is `Unsupported` and
/// produces no constraint.
#[derive(Clone, Copy, PartialEq, Eq, Structural, Debug)]
pub enum JointKind {
    Revolute,
    Continuous,
    Prismatic,
    Fixed,
    Unsupported,
}

/// Hard position limits of a bounded joint.
#[derive(Clone, Copy, PartialEq, Eq, Structural, Debug)]
pub struct JointLimit {
    pub lower: i64,
    pub upper: i64,
}

/// Damping and friction of a joint.
#[derive(Clone, Copy, PartialEq, Eq, Structural, Debug)]
pub struct Dynamics {
    pub damping: i64,
    pub friction: i64,
}

/// A typed connection between two links, named by their link names.
#[derive(Clone, PartialEq, Eq, Debug)]
pub struct Joint {
    pub name: String,
    pub kind: JointKind,
    pub parent: String,
    pub child: String,
    pub origin: Pose,
    pub axis: Vec3,
    pub limit: Option<JointLimit>,
    pub dynamics: Option<Dynamics>,
}

/// A parsed robot description: a name and the ordered link and joint lists.
/// The first link in file order is taken as the root of the kinematic tree.
#[derive(Clone, PartialEq, Eq, Debug)]
pub struct Robot {
    pub name: String,
    pub links: Vec<Link>,
    pub joints: Vec<Joint>,
}

/// The rigid transform a pose stands for.
pub open spec fn pose_tf(p: Pose) -> SpecTransform {
    SpecTransform { rot: p.rot@, t: p.xyz@ }
}

/// A pose within the transform bounds.
pub open spec fn pose_wf(p: Pose) -> bool {
    &&& mat_bounded(p.rot@, ROT_LIM as int)
    &&& vec_bounded(p.xyz@, TR_LIM as int)
}

/// A joint whose pose and axis are within bounds.
pub open spec fn joint_wf(j: Joint) -> bool {
    &&& pose_wf(j.origin)
    &&& vec_bounded(j.axis@, AXIS_LIM as int)
}

/// A link all of whose geometry poses are within bounds.
pub open spec fn link_wf(l: Link) -> bool {
    &&& pose_wf(l.inertial.origin)
    &&& forall|i: int| 0 <= i < l.visuals@.len() ==> pose_wf(#[trigger] l.visuals@[i].origin)
    &&& forall|i: int| 0 <= i < l.collisions@.len() ==> pose_wf(#[trigger] l.collisions@[i].origin)
}

/// A robot whose poses and axes are all within bounds. Dangling joint
/// names are allowed: the tree builder skips them with a warning.
pub open spec fn robot_wf(r: Robot) -> bool {
    &&& forall|i: int| 0 <= i < r.links@.len() ==> link_wf(#[trigger] r.links@[i])
    &&& forall|i: int| 0 <= i < r.joints@.len() ==> joint_wf(#[trigger] r.joints@[i])
}

/// The executable transform of a pose.
pub fn pose_transform(p: &Pose) -> (r: Transform)
    ensures
        r@ == pose_tf(*p),
{
    Transform { rot: p.rot, t: p.xyz }
}

} // verus!
