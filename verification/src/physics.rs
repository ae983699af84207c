//! The physics binder: turns link inertial data into rigid-body mass
//! properties, and joint records into constraint specifications matched to
//! each joint's kinematic type. Also the per-step contact filter that
//! discards physically meaningless micro-contacts.

use vstd::prelude::*;

use crate::math::{Mat3, Vec3};
use crate::model::{Inertial, Joint, JointKind, JointLimit};

verus! {

/// Angular damping applied when a joint gives no dynamics: a stiff stop,
/// ten thousand in fixed point.
pub const DEFAULT_DAMPING: i64 = 10_000_000_000;

/// Penetration threshold under which a contact manifold is discarded:
/// one hundredth of a length unit in fixed point.
pub const DEFAULT_CONTACT_THRESHOLD: i64 = 10_000;

/// Constraint-solving substeps per frame: the subdivision that realizes
/// the stiffness zero compliance asks for. The physics step must finish
/// them all before the joint controller reads the frame's transforms.
pub const SUBSTEP_COUNT: u32 = 200;

/// How the body of a link moves: the designated root is kinematic
/// (externally driven, immovable by contacts); every other link is dynamic.
#[derive(Clone, Copy, PartialEq, Eq, Structural, Debug)]
pub enum BodyKind {
    KinematicBase,
    Dynamic,
}

/// Picks the body kind of a link from whether it is the root.
pub fn body_kind(is_root: bool) -> (r: BodyKind)
    ensures
        r is KinematicBase <==> is_root,
{
    if is_root {
        BodyKind::KinematicBase
    } else {
        BodyKind::Dynamic
    }
}

/// Rigid-body mass data: the mass scalar, the symmetric inertia tensor and
/// the center of mass.
#[derive(Clone, Copy, PartialEq, Eq, Structural, Debug)]
pub struct MassProps {
    pub mass: i64,
    pub inertia: Mat3,
    pub com: Vec3,
}

/// The symmetric inertia tensor assembled from its six independent
/// components.
pub open spec fn spec_inertia_matrix(l: Inertial) -> Mat3 {
    Mat3 {
        xx: l.ixx,
        xy: l.ixy,
        xz: l.ixz,
        yx: l.ixy,
        yy: l.iyy,
        yz: l.iyz,
        zx: l.ixz,
        zy: l.iyz,
        zz: l.izz,
    }
}

/// Builds the rigid-body mass properties of a link: mass from the mass
/// scalar, inertia tensor from the six components, center of mass from the
/// inertial origin translation.
pub fn mass_properties(l: &Inertial) -> (r: MassProps)
    ensures
        r.mass == l.mass,
        r.inertia == spec_inertia_matrix(*l),
        r.com == l.origin.xyz,
{
    MassProps { mass: l.mass, inertia: inertia_matrix(l), com: l.origin.xyz }
}

/// Assembles the symmetric inertia tensor.
pub fn inertia_matrix(l: &Inertial) -> (r: Mat3)
    ensures
        r == spec_inertia_matrix(*l),
        r.xy == r.yx && r.xz == r.zx && r.yz == r.zy,
{
    Mat3 {
        xx: l.ixx,
        xy: l.ixy,
        xz: l.ixz,
        yx: l.ixy,
        yy: l.iyy,
        yz: l.iyz,
        zx: l.ixz,
        zy: l.iyz,
        zz: l.izz,
    }
}

/// The inertia tensor of any inertial record is symmetric.
pub proof fn lemma_inertia_symmetric(l: Inertial)
    ensures
        spec_inertia_matrix(l).xy == spec_inertia_matrix(l).yx,
        spec_inertia_matrix(l).xz == spec_inertia_matrix(l).zx,
        spec_inertia_matrix(l).yz == spec_inertia_matrix(l).zy,
{
}

/// A constraint specification for the physics engine: a single rotational
/// degree of freedom about an axis (with limits for the bounded type, none
/// for the continuous one), or a rigid weld.
#[derive(Clone, Copy, PartialEq, Eq, Structural, Debug)]
pub enum ConstraintSpec {
    RevoluteConstraint {
        axis: Vec3,
        anchor: Vec3,
        damping: i64,
        compliance: i64,
        limits: Option<JointLimit>,
    },
    FixedConstraint,
}

/// What the binder decides for one joint: a native constraint; no native
/// constraint but motion driven by the joint controller (the prismatic
/// gap, which must be logged, not silently dropped); or nothing at all for
/// an unsupported type (an error to surface: the link is left physically
/// free).
#[derive(Clone, Copy, PartialEq, Eq, Structural, Debug)]
pub enum JointBinding {
    Native { spec: ConstraintSpec },
    ControllerDriven,
    NoBinding,
}

/// The damping a joint's dynamics field asks for, or the stiff default.
pub open spec fn spec_joint_damping(j: Joint) -> int {
    match j.dynamics {
        Option::Some(d) => d.damping as int,
        Option::None => DEFAULT_DAMPING as int,
    }
}

/// What the binder decides for each joint kind, as a function of the
/// joint record.
pub open spec fn spec_bind_joint(j: Joint) -> JointBinding {
    match j.kind {
        JointKind::Revolute => JointBinding::Native {
            spec: ConstraintSpec::RevoluteConstraint {
                axis: j.axis,
                anchor: j.origin.xyz,
                damping: spec_joint_damping(j) as i64,
                compliance: 0,
                limits: j.limit,
            },
        },
        JointKind::Continuous => JointBinding::Native {
            spec: ConstraintSpec::RevoluteConstraint {
                axis: j.axis,
                anchor: j.origin.xyz,
                damping: spec_joint_damping(j) as i64,
                compliance: 0,
                limits: Option::None,
            },
        },
        JointKind::Fixed => JointBinding::Native { spec: ConstraintSpec::FixedConstraint },
        JointKind::Prismatic => JointBinding::ControllerDriven,
        JointKind::Unsupported => JointBinding::NoBinding,
    }
}

/// Synthesizes the constraint specification of a joint. Revolute gives one
/// rotational degree of freedom about the axis, anchored at the joint
/// origin, rigid (zero compliance), damped by the dynamics field or the
/// stiff default, with hard angle limits; Continuous is the same with no
/// limits; Fixed welds the two bodies; Prismatic has no native constraint
/// here and is driven by the controller, a gap the caller must log;
/// any other type produces no binding and must be surfaced as an error.
pub fn bind_joint(j: &Joint) -> (r: JointBinding)
    ensures
        r == spec_bind_joint(*j),
        j.kind is Revolute ==> (r matches JointBinding::Native { spec } && (spec matches
            ConstraintSpec::RevoluteConstraint { axis, anchor, damping, compliance, limits }
            && axis == j.axis && anchor == j.origin.xyz && damping == spec_joint_damping(*j)
            && compliance == 0 && limits == j.limit)),
        j.kind is Continuous ==> (r matches JointBinding::Native { spec } && (spec matches
            ConstraintSpec::RevoluteConstraint { axis, anchor, damping, compliance, limits }
            && axis == j.axis && anchor == j.origin.xyz && damping == spec_joint_damping(*j)
            && compliance == 0 && limits is None)),
        j.kind is Fixed ==> (r matches JointBinding::Native { spec } && spec is FixedConstraint),
        j.kind is Prismatic <==> r is ControllerDriven,
        j.kind is Unsupported <==> r is NoBinding,
{
    let damping = match &j.dynamics {
        Option::Some(d) => d.damping,
        Option::None => DEFAULT_DAMPING,
    };
    match j.kind {
        JointKind::Revolute => JointBinding::Native {
            spec: ConstraintSpec::RevoluteConstraint {
                axis: j.axis,
                anchor: j.origin.xyz,
                damping,
                compliance: 0,
                limits: j.limit,
            },
        },
        JointKind::Continuous => JointBinding::Native {
            spec: ConstraintSpec::RevoluteConstraint {
                axis: j.axis,
                anchor: j.origin.xyz,
                damping,
                compliance: 0,
                limits: Option::None,
            },
        },
        JointKind::Fixed => JointBinding::Native { spec: ConstraintSpec::FixedConstraint },
        JointKind::Prismatic => JointBinding::ControllerDriven,
        JointKind::Unsupported => JointBinding::NoBinding,
    }
}

/// One contact point of a manifold, by its penetration depth.
#[derive(Clone, Copy, PartialEq, Eq, Structural, Debug)]
pub struct Contact {
    pub penetration: i64,
}

/// A contact manifold: the contact points of one colliding pair.
#[derive(Clone, PartialEq, Eq, Debug)]
pub struct Manifold {
    pub contacts: Vec<Contact>,
}

/// A manifold worth keeping: some contact reaches the threshold, that is,
/// the maximum penetration depth is not below it.
pub open spec fn manifold_live(contacts: Seq<Contact>, threshold: int) -> bool {
    exists|i: int| 0 <= i < contacts.len() && #[trigger] contacts[i].penetration >= threshold
}

/// Decides whether a manifold is kept: true exactly when some contact's
/// penetration reaches the threshold.
pub fn manifold_retained(m: &Manifold, threshold: i64) -> (r: bool)
    ensures
        r == manifold_live(m.contacts@, threshold as int),
{
    let mut i: usize = 0;
    while i < m.contacts.len()
        invariant
            0 <= i <= m.contacts.len(),
            forall|k: int| 0 <= k < i ==> #[trigger] m.contacts@[k].penetration < threshold,
        decreases m.contacts.len() - i,
    {
        if m.contacts[i].penetration >= threshold {
            proof {
                assert(m.contacts@[i as int].penetration >= threshold);
            }
            return true;
        }
        i = i + 1;
    }
    false
}

/// Filters a step's manifolds: keeps exactly those whose maximum
/// penetration reaches the threshold, in their original order.
pub fn filter_manifolds(ms: Vec<Manifold>, threshold: i64) -> (r: Vec<Manifold>)
    ensures
        r@ == ms@.filter(|m: Manifold| manifold_live(m.contacts@, threshold as int)),
{
    let total: usize = ms.len();
    let ghost orig: Seq<Manifold> = ms@;
    let ghost pred = |m: Manifold| manifold_live(m.contacts@, threshold as int);
    let mut rest = ms;
    let mut r: Vec<Manifold> = Vec::new();
    let mut i: usize = 0;
    while rest.len() > 0
        invariant
            orig.len() == total as int,
            0 <= i <= total,
            rest@ == orig.skip(i as int),
            r@ == orig.take(i as int).filter(pred),
            pred == (|m: Manifold| manifold_live(m.contacts@, threshold as int)),
        decreases rest.len(),
    {
        proof {
            assert(orig.skip(i as int).len() == orig.len() - i);
            assert(orig.skip(i as int)[0] == orig[i as int]);
        }
        let m = rest.remove(0);
        let keep = manifold_retained(&m, threshold);
        proof {
            assert(orig.skip(i as int).remove(0) =~= orig.skip(i + 1 as int));
            let t1 = orig.take(i + 1 as int);
            assert(t1.drop_last() =~= orig.take(i as int));
            assert(t1.last() == orig[i as int]);
            reveal(Seq::filter);
            assert(t1.filter(pred) == if pred(orig[i as int]) {
                orig.take(i as int).filter(pred).push(orig[i as int])
            } else {
                orig.take(i as int).filter(pred)
            });
        }
        if keep {
            r.push(m);
        }
        i = i + 1;
    }
    proof {
        assert(orig.take(i as int) =~= orig);
    }
    r
}

} // verus!
