//! The joint controller: applies a slider-driven or programmatic joint
//! position to the child link's local transform, once per frame. Angles of
//! rotational joints are clamped to a half turn either way; prismatic
//! displacements to one length unit either way. The caller supplies the
//! fixed-point cosine and sine of the clamped angle, since the library
//! computes no trigonometry of its own.

use vstd::prelude::*;

use crate::fixed::{clamp_spec, clamp_fp, fp_mul, fp_mul_exec, lemma_fp_mul_bound, lemma_fp_mul_one, FP_ONE};
use crate::math::{
    axis_angle_matrix, compose, lemma_compose_identity, lemma_mat_apply_zero,
    lemma_mat_mul_identity, lemma_rodrigues_zero_angle, mat_apply, mat_mul, normalize, rodrigues,
    spec_compose, spec_identity, spec_normalize, tf_wf, vec_add, vec_bounded, SpecTransform,
    SpecVec3, Transform, Vec3, AXIS_LIM,
};
use crate::model::JointKind;

verus! {

/// Half a turn in fixed point: the angle bound of rotational joints.
pub const PI_FP: i64 = 3_141_592;

/// The zero vector in spec form.
pub open spec fn spec_zero_vec() -> SpecVec3 {
    SpecVec3 { x: 0, y: 0, z: 0 }
}

/// The position bound of a joint kind: a half turn for the rotational
/// kinds, one length unit for the prismatic kind, zero for the kinds that
/// have no degree of freedom.
pub open spec fn position_bound(kind: JointKind) -> int {
    match kind {
        JointKind::Revolute => PI_FP as int,
        JointKind::Continuous => PI_FP as int,
        JointKind::Prismatic => FP_ONE as int,
        JointKind::Fixed => 0,
        JointKind::Unsupported => 0,
    }
}

/// Clamps a requested joint position into the range its kind allows.
pub fn clamp_joint_position(kind: JointKind, p: i64) -> (r: i64)
    ensures
        r == clamp_spec(p as int, -position_bound(kind), position_bound(kind)),
{
    match kind {
        JointKind::Revolute => clamp_fp(p, -PI_FP, PI_FP),
        JointKind::Continuous => clamp_fp(p, -PI_FP, PI_FP),
        JointKind::Prismatic => clamp_fp(p, -FP_ONE, FP_ONE),
        JointKind::Fixed => 0,
        JointKind::Unsupported => 0,
    }
}

/// Whether the controller offers a live slider for this joint kind; the
/// other kinds get an informational, disabled row.
pub fn slider_enabled(kind: JointKind) -> (r: bool)
    ensures
        r <==> (kind is Revolute || kind is Continuous || kind is Prismatic),
{
    match kind {
        JointKind::Revolute => true,
        JointKind::Continuous => true,
        JointKind::Prismatic => true,
        JointKind::Fixed => false,
        JointKind::Unsupported => false,
    }
}

/// The controller's per-joint state: the joint's kind and its current
/// scalar position, an angle or a displacement. Written only by the
/// controller phase, read-only everywhere else in the same frame.
#[derive(Clone, Copy, PartialEq, Eq, Structural, Debug)]
pub struct JointControl {
    pub kind: JointKind,
    pub position: i64,
}

impl JointControl {
    /// A fresh control at the rest position.
    pub fn new(kind: JointKind) -> (r: JointControl)
        ensures
            r.kind == kind,
            r.position == 0,
    {
        JointControl { kind, position: 0 }
    }

    /// Applies a requested position, clamped into the range the joint kind
    /// allows.
    pub fn set_position(&mut self, p: i64)
        ensures
            final(self).kind == old(self).kind,
            final(self).position == clamp_spec(
                p as int,
                -position_bound(old(self).kind),
                position_bound(old(self).kind),
            ),
    {
        self.position = clamp_joint_position(self.kind, p);
    }
}

/// The child local transform a rotational joint takes at a given angle:
/// the joint's rest origin followed by the axis-angle rotation, so the
/// child's rotation relative to the rest pose is exactly the axis-angle
/// rotation about the normalized axis, and the translation stays the rest
/// translation. `c` and `s` are the fixed-point cosine and sine of the
/// angle. Returns `None` when the axis is zero, or when the composed
/// rotation leaves the transform bounds.
pub fn revolute_child_local(origin: &Transform, axis: &Vec3, c: i64, s: i64) -> (r: Option<
    Transform,
>)
    requires
        tf_wf(origin@),
        vec_bounded(axis@, AXIS_LIM as int),
        -FP_ONE <= c <= FP_ONE,
        -FP_ONE <= s <= FP_ONE,
    ensures
        r is Some ==> {
            let u = spec_normalize(axis@);
            &&& r->0@.rot == mat_mul(origin@.rot, rodrigues(u, c as int, s as int))
            &&& r->0@.t == origin@.t
            &&& tf_wf(r->0@)
        },
        (axis.x == 0 && axis.y == 0 && axis.z == 0) ==> r is None,
        (!(axis.x == 0 && axis.y == 0 && axis.z == 0) && c == FP_ONE && s == 0) ==> r == Some(
            *origin,
        ),
        r is None ==> (axis.x == 0 && axis.y == 0 && axis.z == 0) || !tf_wf(
            spec_compose(
                origin@,
                SpecTransform {
                    rot: rodrigues(spec_normalize(axis@), c as int, s as int),
                    t: spec_zero_vec(),
                },
            ),
        ),
{
    let u = match normalize(axis) {
        Option::Some(u) => u,
        Option::None => {
            return Option::None;
        },
    };
    let rot = axis_angle_matrix(&u, c, s);
    let local = Transform { rot, t: Vec3 { x: 0, y: 0, z: 0 } };
    let r = compose(origin, &local);
    proof {
        lemma_mat_apply_zero(origin@.rot);
        if c == FP_ONE && s == 0 {
            lemma_rodrigues_zero_angle(u@);
            lemma_compose_identity(origin@);
            assert(local@ == spec_identity());
        }
    }
    r
}

/// The prismatic slider translation at displacement `d`: `d` times the
/// normalized axis, componentwise in fixed point; zero at `d = 0`.
/// Returns `None` exactly when the axis is zero.
pub fn prismatic_translation(axis: &Vec3, d: i64) -> (r: Option<Vec3>)
    requires
        vec_bounded(axis@, AXIS_LIM as int),
        -FP_ONE <= d <= FP_ONE,
    ensures
        r is Some <==> !(axis.x == 0 && axis.y == 0 && axis.z == 0),
        r is Some ==> {
            let u = spec_normalize(axis@);
            &&& r->0@ == (SpecVec3 {
                x: fp_mul(d as int, u.x),
                y: fp_mul(d as int, u.y),
                z: fp_mul(d as int, u.z),
            })
            &&& vec_bounded(r->0@, FP_ONE as int)
        },
        (r is Some && d == 0) ==> r->0@ == spec_zero_vec(),
{
    let u = match normalize(axis) {
        Option::Some(u) => u,
        Option::None => {
            return Option::None;
        },
    };
    proof {
        lemma_fp_mul_bound(d as int, u.x as int, FP_ONE as int, FP_ONE as int);
        lemma_fp_mul_bound(d as int, u.y as int, FP_ONE as int, FP_ONE as int);
        lemma_fp_mul_bound(d as int, u.z as int, FP_ONE as int, FP_ONE as int);
        assert(crate::fixed::div_trunc((FP_ONE as int) * (FP_ONE as int), FP_ONE as int)
            == FP_ONE as int) by (nonlinear_arith);
        if d == 0 {
            lemma_fp_mul_one(u.x as int);
            lemma_fp_mul_one(u.y as int);
            lemma_fp_mul_one(u.z as int);
        }
    }
    let x = fp_mul_exec(d, u.x);
    let y = fp_mul_exec(d, u.y);
    let z = fp_mul_exec(d, u.z);
    Option::Some(Vec3 { x, y, z })
}

/// The child local transform a prismatic joint takes at displacement `d`:
/// the joint's rest origin followed by the slider translation along the
/// normalized axis, leaving the rotation the rest rotation. At `d = 0` the
/// child local transform is exactly the rest origin. Returns `None` when
/// the axis is zero, or when the composed translation leaves the
/// transform bounds.
pub fn prismatic_child_local(origin: &Transform, axis: &Vec3, d: i64) -> (r: Option<Transform>)
    requires
        tf_wf(origin@),
        vec_bounded(axis@, AXIS_LIM as int),
        -FP_ONE <= d <= FP_ONE,
    ensures
        r is Some ==> {
            let u = spec_normalize(axis@);
            let disp = SpecVec3 {
                x: fp_mul(d as int, u.x),
                y: fp_mul(d as int, u.y),
                z: fp_mul(d as int, u.z),
            };
            &&& r->0@.rot == origin@.rot
            &&& r->0@.t == vec_add(origin@.t, mat_apply(origin@.rot, disp))
            &&& tf_wf(r->0@)
        },
        (axis.x == 0 && axis.y == 0 && axis.z == 0) ==> r is None,
        (!(axis.x == 0 && axis.y == 0 && axis.z == 0) && d == 0) ==> r == Some(*origin),
{
    let disp = match prismatic_translation(axis, d) {
        Option::Some(t) => t,
        Option::None => {
            return Option::None;
        },
    };
    let local = Transform {
        rot: Transform::identity().rot,
        t: disp,
    };
    let r = compose(origin, &local);
    proof {
        lemma_mat_mul_identity(origin@.rot);
        if d == 0 {
            lemma_compose_identity(origin@);
            assert(local@ == crate::math::spec_identity());
        }
    }
    r
}

} // verus!
