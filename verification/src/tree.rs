//! The kinematic tree builder: resolves the joint list's link names into
//! link indices, skipping joints with dangling names, and computes
//! per-link transforms under the two composition policies: relative
//! transforms for the render hierarchy, and explicit world transforms for
//! physics bodies, composed along the chain of ancestor joint origins from
//! the externally supplied base transform. The root is the first link in
//! file order.

use vstd::prelude::*;

use crate::math::{compose, spec_compose, spec_identity, tf_wf, Transform};
use crate::model::{pose_tf, robot_wf, Joint, Link, Robot};

verus! {

/// A joint whose parent and child names both resolved, as link indices.
#[derive(Clone, Copy, PartialEq, Eq, Structural, Debug)]
pub struct ResolvedJoint {
    pub joint: usize,
    pub parent: usize,
    pub child: usize,
}

/// `i` is the first index of `links` whose name is `name`.
pub open spec fn is_first_link_index(links: Seq<Link>, name: Seq<char>, i: int) -> bool {
    &&& 0 <= i < links.len()
    &&& links[i].name@ == name
    &&& forall|j: int| 0 <= j < i ==> (#[trigger] links[j].name)@ != name
}

/// No link carries `name`.
pub open spec fn no_link_named(links: Seq<Link>, name: Seq<char>) -> bool {
    forall|j: int| 0 <= j < links.len() ==> (#[trigger] links[j].name)@ != name
}

/// Both names of the joint exist in the link list.
pub open spec fn joint_resolvable(links: Seq<Link>, j: Joint) -> bool {
    &&& !no_link_named(links, j.parent@)
    &&& !no_link_named(links, j.child@)
}

/// Finds the first link with the given name, the name-to-index table the
/// joint resolution runs on.
pub fn link_index(links: &Vec<Link>, name: &String) -> (r: Option<usize>)
    ensures
        r matches Some(i) ==> is_first_link_index(links@, name@, i as int),
        r is None ==> no_link_named(links@, name@),
{
    let mut i: usize = 0;
    while i < links.len()
        invariant
            0 <= i <= links@.len(),
            forall|j: int| 0 <= j < i ==> (#[trigger] links@[j].name)@ != name@,
        decreases links@.len() - i,
    {
        if links[i].name == *name {
            return Option::Some(i);
        }
        i = i + 1;
    }
    Option::None
}

/// The number of joints among `joints` whose parent and child both
/// resolve in `links`: the joints the scene will connect.
pub open spec fn count_resolvable(links: Seq<Link>, joints: Seq<Joint>) -> int
    decreases joints.len(),
{
    if joints.len() == 0 {
        0
    } else {
        count_resolvable(links, joints.drop_last()) + if joint_resolvable(links, joints.last()) {
            1int
        } else {
            0int
        }
    }
}

/// The contract of joint resolution as one predicate: `resolved` is
/// exactly the joints whose parent and child names both resolve, in joint
/// order, with first-index name resolution; `skipped` is exactly the
/// others, in joint order.
pub open spec fn resolution_matches(
    robot: Robot,
    resolved: Seq<ResolvedJoint>,
    skipped: Seq<usize>,
) -> bool {
    &&& resolved.len() == count_resolvable(robot.links@, robot.joints@)
    &&& resolved.len() + skipped.len() == robot.joints@.len()
    &&& forall|k: int| 0 <= k < resolved.len() ==> {
        let rj = #[trigger] resolved[k];
        &&& rj.joint < robot.joints@.len()
        &&& joint_resolvable(robot.links@, robot.joints@[rj.joint as int])
        &&& is_first_link_index(
            robot.links@,
            robot.joints@[rj.joint as int].parent@,
            rj.parent as int,
        )
        &&& is_first_link_index(
            robot.links@,
            robot.joints@[rj.joint as int].child@,
            rj.child as int,
        )
    }
    &&& forall|k1: int, k2: int| 0 <= k1 < k2 < resolved.len() ==> (#[trigger] resolved[k1]).joint
        < (#[trigger] resolved[k2]).joint
    &&& forall|i: int|
        0 <= i < robot.joints@.len() && joint_resolvable(robot.links@, #[trigger] robot.joints@[i])
            ==> exists|k: int| 0 <= k < resolved.len() && (#[trigger] resolved[k]).joint == i
    &&& forall|k: int| 0 <= k < skipped.len() ==> (#[trigger] skipped[k]) < robot.joints@.len()
        && !joint_resolvable(robot.links@, robot.joints@[skipped[k] as int])
    &&& forall|k1: int, k2: int| 0 <= k1 < k2 < skipped.len() ==> (#[trigger] skipped[k1]) < (
    #[trigger] skipped[k2])
    &&& forall|i: int|
        0 <= i < robot.joints@.len() && !joint_resolvable(
            robot.links@,
            #[trigger] robot.joints@[i],
        ) ==> exists|k: int| 0 <= k < skipped.len() && (#[trigger] skipped[k]) == i
}

/// Resolves every joint's parent and child names to link indices, in
/// joint order. Returns the resolved joints, and the indices of the
/// joints that were skipped because a name dangles: each skipped joint is
/// a warning to surface, and its child link still stands in the scene,
/// merely unconnected.
pub fn resolve_joints(robot: &Robot) -> (r: (Vec<ResolvedJoint>, Vec<usize>))
    ensures
        resolution_matches(*robot, r.0@, r.1@),
{
    let mut resolved: Vec<ResolvedJoint> = Vec::new();
    let mut skipped: Vec<usize> = Vec::new();
    let mut i: usize = 0;
    while i < robot.joints.len()
        invariant
            0 <= i <= robot.joints@.len(),
            resolved@.len() == count_resolvable(robot.links@, robot.joints@.take(i as int)),
            resolved@.len() + skipped@.len() == i,
            forall|k: int| 0 <= k < resolved@.len() ==> {
                let rj = #[trigger] resolved@[k];
                &&& rj.joint < i
                &&& joint_resolvable(robot.links@, robot.joints@[rj.joint as int])
                &&& is_first_link_index(
                    robot.links@,
                    robot.joints@[rj.joint as int].parent@,
                    rj.parent as int,
                )
                &&& is_first_link_index(
                    robot.links@,
                    robot.joints@[rj.joint as int].child@,
                    rj.child as int,
                )
            },
            forall|k1: int, k2: int| 0 <= k1 < k2 < resolved@.len() ==> (
            #[trigger] resolved@[k1]).joint < (#[trigger] resolved@[k2]).joint,
            forall|i0: int|
                0 <= i0 < i && joint_resolvable(robot.links@, #[trigger] robot.joints@[i0])
                    ==> exists|k: int| 0 <= k < resolved@.len() && (#[trigger] resolved@[k]).joint
                    == i0,
            forall|k: int| 0 <= k < skipped@.len() ==> (#[trigger] skipped@[k]) < i
                && !joint_resolvable(robot.links@, robot.joints@[skipped@[k] as int]),
            forall|k1: int, k2: int| 0 <= k1 < k2 < skipped@.len() ==> (#[trigger] skipped@[k1])
                < (#[trigger] skipped@[k2]),
            forall|i0: int|
                0 <= i0 < i && !joint_resolvable(robot.links@, #[trigger] robot.joints@[i0])
                    ==> exists|k: int| 0 <= k < skipped@.len() && (#[trigger] skipped@[k]) == i0,
        decreases robot.joints@.len() - i,
    {
        let j = &robot.joints[i];
        let p = link_index(&robot.links, &j.parent);
        let c = link_index(&robot.links, &j.child);
        proof {
            assert(robot.joints@.take(i + 1 as int).drop_last() =~= robot.joints@.take(i as int));
            assert(robot.joints@.take(i + 1 as int).last() == robot.joints@[i as int]);
        }
        match (p, c) {
            (Option::Some(pi), Option::Some(ci)) => {
                let ghost old_r = resolved@;
                resolved.push(ResolvedJoint { joint: i, parent: pi, child: ci });
                proof {
                    assert(forall|k: int| 0 <= k < old_r.len() ==> #[trigger] resolved@[k]
                        == old_r[k]);
                    assert(resolved@[old_r.len() as int].joint == i);
                    assert(forall|i0: int|
                        0 <= i0 < i + 1 && joint_resolvable(
                            robot.links@,
                            #[trigger] robot.joints@[i0],
                        ) ==> exists|k: int| 0 <= k < resolved@.len() && (
                        #[trigger] resolved@[k]).joint == i0) by {
                        assert(forall|i0: int|
                            0 <= i0 < i && joint_resolvable(
                                robot.links@,
                                #[trigger] robot.joints@[i0],
                            ) ==> exists|k: int| 0 <= k < old_r.len() && (
                            #[trigger] old_r[k]).joint == i0);
                        assert forall|i0: int|
                            0 <= i0 < i + 1 && joint_resolvable(
                                robot.links@,
                                #[trigger] robot.joints@[i0],
                            ) implies exists|k: int| 0 <= k < resolved@.len() && (
                        #[trigger] resolved@[k]).joint == i0 by {
                            if i0 == i {
                                assert(resolved@[old_r.len() as int].joint == i0);
                            } else {
                                let k = choose|k: int| 0 <= k < old_r.len() && (
                                #[trigger] old_r[k]).joint == i0;
                                assert(resolved@[k].joint == i0);
                            }
                        }
                    }
                }
            },
            _ => {
                let ghost old_s = skipped@;
                proof {
                    assert(!joint_resolvable(robot.links@, robot.joints@[i as int]));
                }
                skipped.push(i);
                proof {
                    assert(forall|k: int| 0 <= k < old_s.len() ==> #[trigger] skipped@[k]
                        == old_s[k]);
                    assert(skipped@[old_s.len() as int] == i);
                    assert forall|i0: int|
                        0 <= i0 < i + 1 && !joint_resolvable(
                            robot.links@,
                            #[trigger] robot.joints@[i0],
                        ) implies exists|k: int| 0 <= k < skipped@.len() && (
                    #[trigger] skipped@[k]) == i0 by {
                        if i0 == i {
                            assert(skipped@[old_s.len() as int] == i0);
                        } else {
                            let k = choose|k: int| 0 <= k < old_s.len() && (#[trigger] old_s[k])
                                == i0;
                            assert(skipped@[k] == i0);
                        }
                    }
                }
            },
        }
        i = i + 1;
    }
    proof {
        assert(robot.joints@.take(i as int) =~= robot.joints@);
    }
    (resolved, skipped)
}

/// The per-link transforms of the render hierarchy, where every node
/// stores only its transform relative to its parent and the engine
/// accumulates world transforms itself: the root link carries the base
/// transform, every other link carries the identity, its placement coming
/// from the joint node above it.
pub fn relative_link_transforms(robot: &Robot, base: &Transform) -> (r: Vec<Transform>)
    ensures
        r@.len() == robot.links@.len(),
        robot.links@.len() > 0 ==> r@[0] == *base,
        forall|i: int| 1 <= i < r@.len() ==> (#[trigger] r@[i])@ == spec_identity(),
{
    let mut r: Vec<Transform> = Vec::new();
    let n = robot.links.len();
    while r.len() < n
        invariant
            r@.len() <= n == robot.links@.len(),
            n > 0 && r@.len() > 0 ==> r@[0] == *base,
            forall|i: int| 1 <= i < r@.len() ==> (#[trigger] r@[i])@ == spec_identity(),
        decreases n - r@.len(),
    {
        if r.len() == 0 {
            r.push(*base);
        } else {
            r.push(Transform::identity());
        }
    }
    r
}

/// The map of a transform sequence to its mathematical image.
pub open spec fn views_of(s: Seq<Transform>) -> Seq<crate::math::SpecTransform> {
    s.map_values(|t: Transform| t@)
}

/// The world transforms before any joint is applied: the base at the root
/// link, the identity everywhere else.
pub open spec fn initial_world(
    links: Seq<Link>,
    base: crate::math::SpecTransform,
) -> Seq<crate::math::SpecTransform> {
    Seq::new(links.len(), |i: int| if i == 0 { base } else { spec_identity() })
}

/// One joint applied to the world transforms: the child's world transform
/// becomes the parent's composed with the joint's origin transform.
pub open spec fn world_step(
    w: Seq<crate::math::SpecTransform>,
    rj: ResolvedJoint,
    origin: crate::math::SpecTransform,
) -> Seq<crate::math::SpecTransform> {
    w.update(rj.child as int, spec_compose(w[rj.parent as int], origin))
}

/// The origin transform of the joint a resolved entry names.
pub open spec fn origin_of(joints: Seq<Joint>, rj: ResolvedJoint) -> crate::math::SpecTransform {
    pose_tf(joints[rj.joint as int].origin)
}

/// The world transforms after the first `k` resolved joints are applied
/// in order.
pub open spec fn world_after(
    links: Seq<Link>,
    joints: Seq<Joint>,
    resolved: Seq<ResolvedJoint>,
    base: crate::math::SpecTransform,
    k: int,
) -> Seq<crate::math::SpecTransform>
    decreases k,
{
    if k <= 0 {
        initial_world(links, base)
    } else {
        world_step(
            world_after(links, joints, resolved, base, k - 1),
            resolved[k - 1],
            origin_of(joints, resolved[k - 1]),
        )
    }
}

/// Every composition among the first `k` steps stays within the transform
/// bounds, so the fixed-point world transforms exist.
pub open spec fn steps_wf(
    links: Seq<Link>,
    joints: Seq<Joint>,
    resolved: Seq<ResolvedJoint>,
    base: crate::math::SpecTransform,
    k: int,
) -> bool {
    forall|j: int|
        0 <= j < k ==> tf_wf(
            spec_compose(
                #[trigger] world_after(links, joints, resolved, base, j)[resolved[j].parent as int],
                origin_of(joints, resolved[j]),
            ),
        )
}

/// Every resolved entry's indices are in range.
pub open spec fn resolved_in_range(
    links: Seq<Link>,
    joints: Seq<Joint>,
    resolved: Seq<ResolvedJoint>,
) -> bool {
    forall|k: int| 0 <= k < resolved.len() ==> {
        let rj = #[trigger] resolved[k];
        &&& rj.joint < joints.len()
        &&& rj.parent < links.len()
        &&& rj.child < links.len()
    }
}

/// The world transform of every link under the physics policy: rigid
/// bodies need an absolute initial pose, so each link's world transform
/// is composed explicitly, in joint order, from the base transform and
/// the ancestor joint origins. Returns `None` exactly when some
/// composition leaves the fixed-point transform bounds.
pub fn world_link_transforms(robot: &Robot, resolved: &Vec<ResolvedJoint>, base: &Transform) -> (r:
    Option<Vec<Transform>>)
    requires
        tf_wf(base@),
        robot_wf(*robot),
        resolved_in_range(robot.links@, robot.joints@, resolved@),
    ensures
        r is Some <==> steps_wf(robot.links@, robot.joints@, resolved@, base@, resolved@.len() as int),
        r matches Some(w) ==> w@.len() == robot.links@.len() && views_of(w@) == world_after(
            robot.links@,
            robot.joints@,
            resolved@,
            base@,
            resolved@.len() as int,
        ),
{
    let mut w: Vec<Transform> = Vec::new();
    let n = robot.links.len();
    while w.len() < n
        invariant
            w@.len() <= n == robot.links@.len(),
            forall|i: int| 0 <= i < w@.len() ==> (#[trigger] w@[i])@ == (if i == 0 {
                base@
            } else {
                spec_identity()
            }),
            tf_wf(base@),
        decreases n - w@.len(),
    {
        if w.len() == 0 {
            w.push(*base);
        } else {
            w.push(Transform::identity());
        }
    }
    proof {
        assert(views_of(w@) =~= initial_world(robot.links@, base@));
        crate::math::lemma_identity_wf();
        assert(forall|i: int| 0 <= i < w@.len() ==> tf_wf((#[trigger] w@[i])@));
    }
    let ghost links = robot.links@;
    let ghost joints = robot.joints@;
    let ghost rs = resolved@;
    let mut k: usize = 0;
    while k < resolved.len()
        invariant
            0 <= k <= rs.len(),
            rs == resolved@,
            links == robot.links@,
            joints == robot.joints@,
            tf_wf(base@),
            robot_wf(*robot),
            resolved_in_range(links, joints, rs),
            w@.len() == links.len(),
            views_of(w@) == world_after(links, joints, rs, base@, k as int),
            steps_wf(links, joints, rs, base@, k as int),
            forall|i: int| 0 <= i < w@.len() ==> tf_wf((#[trigger] w@[i])@),
        decreases rs.len() - k,
    {
        let rj = resolved[k];
        let origin = crate::model::pose_transform(&robot.joints[rj.joint].origin);
        proof {
            assert(views_of(w@)[rj.parent as int] == w@[rj.parent as int]@);
            assert(crate::model::pose_wf(robot.joints@[rj.joint as int].origin));
        }
        let parent_tf = w[rj.parent];
        let c = match compose(&parent_tf, &origin) {
            Option::Some(c) => c,
            Option::None => {
                proof {
                    assert(!steps_wf(links, joints, rs, base@, rs.len() as int)) by {
                        assert(!tf_wf(
                            spec_compose(
                                world_after(links, joints, rs, base@, k as int)[rs[k as int].parent as int],
                                origin_of(joints, rs[k as int]),
                            ),
                        ));
                    }
                }
                return Option::None;
            },
        };
        w.set(rj.child, c);
        proof {
            assert(views_of(w@) =~= world_after(links, joints, rs, base@, k + 1 as int));
        }
        k = k + 1;
    }
    Option::Some(w)
}

/// The index of the last resolved entry whose child is link `l`, the
/// entry that fixes `l`'s world transform, or `-1` when no entry does.
/// Under a tree-shaped resolution each link is a child at most once.
pub open spec fn setter_of(resolved: Seq<ResolvedJoint>, l: int) -> int
    decreases resolved.len(),
{
    if resolved.len() == 0 {
        -1
    } else if resolved.last().child == l {
        resolved.len() - 1
    } else {
        setter_of(resolved.drop_last(), l)
    }
}

/// What `setter_of` finds: the last entry with child `l`, or none at all.
pub proof fn lemma_setter_props(resolved: Seq<ResolvedJoint>, l: int)
    ensures
        -1 <= setter_of(resolved, l) < resolved.len(),
        setter_of(resolved, l) >= 0 ==> (#[trigger] resolved[setter_of(resolved, l)]).child == l,
        forall|k: int| setter_of(resolved, l) < k < resolved.len() ==> (
        #[trigger] resolved[k]).child != l,
    decreases resolved.len(),
{
    if resolved.len() == 0 {
    } else if resolved.last().child == l {
    } else {
        lemma_setter_props(resolved.drop_last(), l);
        assert forall|k: int| setter_of(resolved, l) < k < resolved.len() implies (
        #[trigger] resolved[k]).child != l by {
            if k < resolved.len() - 1 {
                assert(resolved.drop_last()[k] == resolved[k]);
            }
        }
    }
}

/// The resolution is a tree read in topological order: the root is never
/// a child, no link is the child of two entries, and no entry's parent is
/// written by that entry or any later one, so a parent's world transform
/// is final when it is read.
pub open spec fn forest_ok(resolved: Seq<ResolvedJoint>) -> bool {
    &&& forall|k: int| 0 <= k < resolved.len() ==> (#[trigger] resolved[k]).child != 0
    &&& forall|k1: int, k2: int| 0 <= k1 < k2 < resolved.len() ==> (#[trigger] resolved[k1]).child
        != (#[trigger] resolved[k2]).child
    &&& forall|k1: int, k2: int| 0 <= k1 <= k2 < resolved.len() ==> (
    #[trigger] resolved[k1]).parent != (#[trigger] resolved[k2]).child
}

/// The world transforms always hold one transform per link.
pub proof fn lemma_world_len(
    links: Seq<Link>,
    joints: Seq<Joint>,
    resolved: Seq<ResolvedJoint>,
    base: crate::math::SpecTransform,
    k: int,
)
    requires
        resolved_in_range(links, joints, resolved),
        k <= resolved.len(),
    ensures
        world_after(links, joints, resolved, base, k).len() == links.len(),
    decreases k,
{
    if k <= 0 {
        assert(world_after(links, joints, resolved, base, k) == initial_world(links, base));
    } else {
        lemma_world_len(links, joints, resolved, base, k - 1);
        assert(world_after(links, joints, resolved, base, k) == world_step(
            world_after(links, joints, resolved, base, k - 1),
            resolved[k - 1],
            origin_of(joints, resolved[k - 1]),
        ));
    }
}

/// A link no step in `[k1, k2)` writes keeps its world transform across
/// those steps.
pub proof fn lemma_world_untouched(
    links: Seq<Link>,
    joints: Seq<Joint>,
    resolved: Seq<ResolvedJoint>,
    base: crate::math::SpecTransform,
    l: int,
    k1: int,
    k2: int,
)
    requires
        resolved_in_range(links, joints, resolved),
        0 <= k1 <= k2 <= resolved.len(),
        0 <= l < links.len(),
        forall|j: int| k1 <= j < k2 ==> (#[trigger] resolved[j]).child != l,
    ensures
        world_after(links, joints, resolved, base, k2)[l] == world_after(
            links,
            joints,
            resolved,
            base,
            k1,
        )[l],
    decreases k2 - k1,
{
    if k2 > k1 {
        lemma_world_untouched(links, joints, resolved, base, l, k1, k2 - 1);
        lemma_world_len(links, joints, resolved, base, k2 - 1);
        assert(resolved[k2 - 1].child != l);
        assert(world_after(links, joints, resolved, base, k2) == world_step(
            world_after(links, joints, resolved, base, k2 - 1),
            resolved[k2 - 1],
            origin_of(joints, resolved[k2 - 1]),
        ));
    }
}

/// The ancestor-chain transform of link `l`: the base transform composed,
/// root to link, with the joint-origin transforms along the tree path
/// from the root down to `l`; the identity for an unconnected non-root
/// link. The fuel bounds the recursion and any value beyond the path
/// depth gives the chain itself.
pub open spec fn path_transform(
    links: Seq<Link>,
    joints: Seq<Joint>,
    resolved: Seq<ResolvedJoint>,
    base: crate::math::SpecTransform,
    l: int,
    fuel: nat,
) -> crate::math::SpecTransform
    decreases fuel,
{
    let k = setter_of(resolved, l);
    if k == -1 {
        if l == 0 {
            base
        } else {
            spec_identity()
        }
    } else if fuel == 0 {
        spec_identity()
    } else {
        spec_compose(
            path_transform(
                links,
                joints,
                resolved,
                base,
                resolved[k].parent as int,
                (fuel - 1) as nat,
            ),
            origin_of(joints, resolved[k]),
        )
    }
}

/// The world transform of every link equals the base transform composed
/// with the product of the ancestor joint-origin transforms along the
/// tree path from the root, in root-to-link order: applying the resolved
/// joints in file order realizes exactly the ancestor chain, provided the
/// resolution is a tree read in topological order.
pub proof fn lemma_world_is_ancestor_chain(
    links: Seq<Link>,
    joints: Seq<Joint>,
    resolved: Seq<ResolvedJoint>,
    base: crate::math::SpecTransform,
    l: int,
    fuel: nat,
)
    requires
        resolved_in_range(links, joints, resolved),
        forest_ok(resolved),
        0 <= l < links.len(),
        fuel > setter_of(resolved, l),
    ensures
        world_after(links, joints, resolved, base, resolved.len() as int)[l] == path_transform(
            links,
            joints,
            resolved,
            base,
            l,
            fuel,
        ),
    decreases fuel,
{
    let n = resolved.len() as int;
    let k = setter_of(resolved, l);
    lemma_setter_props(resolved, l);
    lemma_world_len(links, joints, resolved, base, n);
    if k == -1 {
        lemma_world_untouched(links, joints, resolved, base, l, 0, n);
    } else {
        let parent = resolved[k].parent as int;
        lemma_world_len(links, joints, resolved, base, k);
        lemma_world_len(links, joints, resolved, base, k + 1);
        assert(world_after(links, joints, resolved, base, k + 1) == world_step(
            world_after(links, joints, resolved, base, k),
            resolved[k],
            origin_of(joints, resolved[k]),
        ));
        assert(world_after(links, joints, resolved, base, k + 1)[l] == spec_compose(
            world_after(links, joints, resolved, base, k)[parent],
            origin_of(joints, resolved[k]),
        ));
        lemma_world_untouched(links, joints, resolved, base, l, k + 1, n);
        assert(forall|j: int| k <= j < n ==> (#[trigger] resolved[j]).child != parent);
        lemma_world_untouched(links, joints, resolved, base, parent, k, n);
        lemma_setter_props(resolved, parent);
        assert(setter_of(resolved, parent) < k) by {
            let kp = setter_of(resolved, parent);
            if kp >= k {
                assert(resolved[kp].child == parent);
                assert(resolved[k].parent != resolved[kp].child);
                assert(false);
            }
        }
        lemma_world_is_ancestor_chain(links, joints, resolved, base, parent, (fuel - 1) as nat);
    }
}
pub proof fn lemma_first_link_index_unique(links: Seq<Link>, name: Seq<char>, i1: int, i2: int)
    requires
        is_first_link_index(links, name, i1),
        is_first_link_index(links, name, i2),
    ensures
        i1 == i2,
{
    if i1 < i2 {
        assert(links[i1].name@ == name);
    }
    if i2 < i1 {
        assert(links[i2].name@ == name);
    }
}

/// `x` occurs in `s`.
pub open spec fn has_member(s: Seq<int>, x: int) -> bool {
    exists|k: int| 0 <= k < s.len() && #[trigger] s[k] == x
}

/// Two strictly increasing sequences with the same members are equal.
pub proof fn lemma_increasing_enum_unique(s1: Seq<int>, s2: Seq<int>)
    requires
        forall|k1: int, k2: int| 0 <= k1 < k2 < s1.len() ==> #[trigger] s1[k1] < #[trigger] s1[k2],
        forall|k1: int, k2: int| 0 <= k1 < k2 < s2.len() ==> #[trigger] s2[k1] < #[trigger] s2[k2],
        forall|x: int| #![trigger has_member(s1, x)] #![trigger has_member(s2, x)]
            has_member(s1, x) <==> has_member(s2, x),
    ensures
        s1 =~= s2,
    decreases s1.len(),
{
    if s1.len() == 0 {
        if s2.len() > 0 {
            assert(has_member(s2, s2[0]));
            let k = choose|k: int| 0 <= k < s1.len() && s1[k] == s2[0];
            assert(false);
        }
    } else {
        assert(has_member(s1, s1[0]));
        let kh = choose|k: int| 0 <= k < s2.len() && s2[k] == s1[0];
        assert(s2.len() > 0);
        let h1 = s1[0];
        let h2 = s2[0];
        if h1 < h2 {
            assert(kh > 0 ==> s2[0] < s2[kh]);
            assert(false);
        }
        if h2 < h1 {
            assert(has_member(s2, h2));
            let k = choose|k: int| 0 <= k < s1.len() && s1[k] == h2;
            assert(k > 0 ==> s1[0] < s1[k]);
            assert(false);
        }
        let t1 = s1.skip(1);
        let t2 = s2.skip(1);
        assert(forall|k: int| 0 <= k < t1.len() ==> #[trigger] t1[k] == s1[k + 1]);
        assert(forall|k: int| 0 <= k < t2.len() ==> #[trigger] t2[k] == s2[k + 1]);
        assert forall|x: int| #![trigger has_member(t1, x)] #![trigger has_member(t2, x)]
            has_member(t1, x) <==> has_member(t2, x) by {
            if has_member(t1, x) {
                let k = choose|k: int| 0 <= k < t1.len() && t1[k] == x;
                assert(s1[k + 1] == x);
                assert(h1 < x);
                assert(has_member(s1, x));
                let k2 = choose|k2: int| 0 <= k2 < s2.len() && s2[k2] == x;
                assert(k2 > 0);
                assert(t2[k2 - 1] == x);
                assert(has_member(t2, x));
            }
            if has_member(t2, x) {
                let k = choose|k: int| 0 <= k < t2.len() && t2[k] == x;
                assert(s2[k + 1] == x);
                assert(h2 < x);
                assert(has_member(s2, x));
                let k1 = choose|k1: int| 0 <= k1 < s1.len() && s1[k1] == x;
                assert(k1 > 0);
                assert(t1[k1 - 1] == x);
                assert(has_member(t1, x));
            }
        }
        lemma_increasing_enum_unique(t1, t2);
        assert forall|k: int| 0 <= k < s1.len() implies s1[k] == s2[k] by {
            if k > 0 {
                assert(t1[k - 1] == t2[k - 1]);
            }
        }
    }
}

/// Joint resolution is a function of the robot alone: any two outcomes
/// that meet the resolution contract are equal, so rebuilding the same
/// description resolves the same tree.
pub proof fn lemma_resolution_deterministic(
    robot: Robot,
    r1: Seq<ResolvedJoint>,
    s1: Seq<usize>,
    r2: Seq<ResolvedJoint>,
    s2: Seq<usize>,
)
    requires
        resolution_matches(robot, r1, s1),
        resolution_matches(robot, r2, s2),
    ensures
        r1 == r2,
        s1 == s2,
{
    let js1 = Seq::new(r1.len(), |k: int| r1[k].joint as int);
    let js2 = Seq::new(r2.len(), |k: int| r2[k].joint as int);
    assert forall|x: int| #![trigger has_member(js1, x)] #![trigger has_member(js2, x)]
        has_member(js1, x) <==> has_member(js2, x) by {
        if has_member(js1, x) {
            let k = choose|k: int| 0 <= k < js1.len() && js1[k] == x;
            assert(r1[k].joint == x);
            assert(joint_resolvable(robot.links@, robot.joints@[x]));
            let k2 = choose|k2: int| 0 <= k2 < r2.len() && (#[trigger] r2[k2]).joint == x;
            assert(js2[k2] == x);
            assert(has_member(js2, x));
        }
        if has_member(js2, x) {
            let k = choose|k: int| 0 <= k < js2.len() && js2[k] == x;
            assert(r2[k].joint == x);
            assert(joint_resolvable(robot.links@, robot.joints@[x]));
            let k1 = choose|k1: int| 0 <= k1 < r1.len() && (#[trigger] r1[k1]).joint == x;
            assert(js1[k1] == x);
            assert(has_member(js1, x));
        }
    }
    lemma_increasing_enum_unique(js1, js2);
    assert forall|k: int| 0 <= k < r1.len() implies r1[k] == r2[k] by {
        assert(js1[k] == js2[k]);
        let j = r1[k].joint;
        assert(r2[k].joint == j);
        lemma_first_link_index_unique(
            robot.links@,
            robot.joints@[j as int].parent@,
            r1[k].parent as int,
            r2[k].parent as int,
        );
        lemma_first_link_index_unique(
            robot.links@,
            robot.joints@[j as int].child@,
            r1[k].child as int,
            r2[k].child as int,
        );
    }
    assert(r1 =~= r2);
    let sk1 = Seq::new(s1.len(), |k: int| s1[k] as int);
    let sk2 = Seq::new(s2.len(), |k: int| s2[k] as int);
    assert forall|x: int| #![trigger has_member(sk1, x)] #![trigger has_member(sk2, x)]
        has_member(sk1, x) <==> has_member(sk2, x) by {
        if has_member(sk1, x) {
            let k = choose|k: int| 0 <= k < sk1.len() && sk1[k] == x;
            assert(s1[k] == x);
            assert(!joint_resolvable(robot.links@, robot.joints@[x]));
            let k2 = choose|k2: int| 0 <= k2 < s2.len() && (#[trigger] s2[k2]) == x;
            assert(sk2[k2] == x);
            assert(has_member(sk2, x));
        }
        if has_member(sk2, x) {
            let k = choose|k: int| 0 <= k < sk2.len() && sk2[k] == x;
            assert(s2[k] == x);
            assert(!joint_resolvable(robot.links@, robot.joints@[x]));
            let k1 = choose|k1: int| 0 <= k1 < s1.len() && (#[trigger] s1[k1]) == x;
            assert(sk1[k1] == x);
            assert(has_member(sk1, x));
        }
    }
    lemma_increasing_enum_unique(sk1, sk2);
    assert forall|k: int| 0 <= k < s1.len() implies s1[k] == s2[k] by {
        assert(sk1[k] == sk2[k]);
    }
    assert(s1 =~= s2);
}

} // verus!
