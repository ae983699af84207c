//! The scene instantiator: orchestrates the tree builder, the geometry
//! resolver and the physics binder into the runtime entity hierarchy. One
//! node per link, carrying its transform, body kind, mass data and the
//! resolved visuals and collisions; one node per resolved joint, carrying
//! the joint's local origin transform and its constraint binding. All link
//! nodes are created before any joint node, since joints reference
//! already-existing link nodes.

use vstd::prelude::*;

use crate::geometry::{
    resolve_geometry, resolve_material, spec_resolve_color, spec_resolve_geometry, MeshSpec,
};
use crate::math::{tf_wf, Transform};
use crate::model::{robot_wf, Collision, Joint, Link, Rgba, Robot, Visual};
use crate::physics::{
    bind_joint, body_kind, mass_properties, spec_bind_joint, spec_inertia_matrix, BodyKind,
    JointBinding, MassProps,
};
use crate::tree::{
    relative_link_transforms, resolution_matches, resolve_joints, resolved_in_range, steps_wf,
    views_of, world_after, world_link_transforms, ResolvedJoint,
};

verus! {

/// One renderable child of a link node: the resolved mesh (none when the
/// geometry variant is unsupported, so nothing is attached), the resolved
/// base color, whether that color is the fallback for an unsupported
/// texture (a warning to surface), and the local origin transform.
#[derive(Clone, PartialEq, Eq, Debug)]
pub struct VisualNode {
    pub mesh: Option<MeshSpec>,
    pub color: Rgba,
    pub texture_fallback: bool,
    pub local: Transform,
}

/// One collidable child of a link node: the resolved mesh (none when
/// unsupported, so no collider is attached) and the local origin
/// transform. The collider itself is requested from the host as an
/// automatic convex decomposition of this mesh.
#[derive(Clone, PartialEq, Eq, Debug)]
pub struct CollisionNode {
    pub mesh: Option<MeshSpec>,
    pub local: Transform,
}

/// One scene node per link: its index, its transform under the selected
/// composition policy, its body kind and mass data, and its resolved
/// geometry children.
#[derive(Clone, PartialEq, Eq, Debug)]
pub struct LinkNode {
    pub link: usize,
    pub transform: Transform,
    pub body: BodyKind,
    pub mass: MassProps,
    pub visuals: Vec<VisualNode>,
    pub collisions: Vec<CollisionNode>,
}

/// One scene node per resolved joint: the resolved indices, the joint's
/// own local origin transform (an addressable node, so constraints can be
/// anchored at the joint frame), and its constraint binding.
#[derive(Clone, Copy, PartialEq, Eq, Structural, Debug)]
pub struct JointNode {
    pub index: ResolvedJoint,
    pub local: Transform,
    pub binding: JointBinding,
}

/// Which transform-composition policy the scene uses: relative transforms
/// for the engine's own render-hierarchy propagation, or explicit world
/// transforms for physics bodies.
#[derive(Clone, Copy, PartialEq, Eq, Structural, Debug)]
pub enum SceneMode {
    RenderHierarchy,
    PhysicsWorld,
}

/// The instantiated scene: all link nodes, then all joint nodes, plus the
/// indices of the joints that were skipped for dangling names, each a
/// warning to surface.
#[derive(Clone, PartialEq, Eq, Debug)]
pub struct Scene {
    pub links: Vec<LinkNode>,
    pub joints: Vec<JointNode>,
    pub skipped_joints: Vec<usize>,
}

/// The visual node a visual entry resolves to.
pub open spec fn spec_visual_node(v: Visual) -> VisualNode {
    VisualNode {
        mesh: spec_resolve_geometry(v.geometry),
        color: spec_resolve_color(v.material),
        texture_fallback: v.material matches Some(m) && m.texture is Some,
        local: Transform { rot: v.origin.rot, t: v.origin.xyz },
    }
}

/// The collision node a collision entry resolves to.
pub open spec fn spec_collision_node(c: Collision) -> CollisionNode {
    CollisionNode {
        mesh: spec_resolve_geometry(c.geometry),
        local: Transform { rot: c.origin.rot, t: c.origin.xyz },
    }
}

/// The joint node a resolved joint stands for.
pub open spec fn spec_joint_node(joints: Seq<Joint>, rj: ResolvedJoint) -> JointNode {
    let j = joints[rj.joint as int];
    JointNode {
        index: rj,
        local: Transform { rot: j.origin.rot, t: j.origin.xyz },
        binding: spec_bind_joint(j),
    }
}

/// A link node carries exactly what its link resolves to: the given
/// transform, the root-rule body kind, the inertial mass data, and one
/// visual and collision node per entry, in order.
pub open spec fn link_node_matches(l: Link, i: int, tf: Transform, n: LinkNode) -> bool {
    &&& n.link == i
    &&& n.transform == tf
    &&& (n.body is KinematicBase <==> i == 0)
    &&& n.mass == (MassProps {
        mass: l.inertial.mass,
        inertia: spec_inertia_matrix(l.inertial),
        com: l.inertial.origin.xyz,
    })
    &&& n.visuals@.len() == l.visuals@.len()
    &&& forall|k: int| 0 <= k < l.visuals@.len() ==> #[trigger] n.visuals@[k] == spec_visual_node(
        l.visuals@[k],
    )
    &&& n.collisions@.len() == l.collisions@.len()
    &&& forall|k: int| 0 <= k < l.collisions@.len() ==> #[trigger] n.collisions@[k]
        == spec_collision_node(l.collisions@[k])
}

/// The scene a robot builds, relative to a given resolution and per-link
/// transforms: one matching link node per link, one pinned joint node per
/// resolved joint, the skipped list carried through.
pub open spec fn scene_matches(
    robot: Robot,
    resolved: Seq<ResolvedJoint>,
    skipped: Seq<usize>,
    tfs: Seq<Transform>,
    s: Scene,
) -> bool {
    &&& s.links@.len() == robot.links@.len()
    &&& forall|i: int| 0 <= i < s.links@.len() ==> link_node_matches(
        robot.links@[i],
        i,
        tfs[i],
        #[trigger] s.links@[i],
    )
    &&& s.joints@.len() == resolved.len()
    &&& forall|k: int| 0 <= k < s.joints@.len() ==> #[trigger] s.joints@[k] == spec_joint_node(
        robot.joints@,
        resolved[k],
    )
    &&& s.skipped_joints@ == skipped
}

/// Builds the visual node of one visual entry.
fn build_visual_node(v: &Visual) -> (r: VisualNode)
    ensures
        r == spec_visual_node(*v),
{
    let mesh = resolve_geometry(&v.geometry);
    let (color, texture_fallback) = resolve_material(&v.material);
    VisualNode {
        mesh,
        color,
        texture_fallback,
        local: Transform { rot: v.origin.rot, t: v.origin.xyz },
    }
}

/// Builds the collision node of one collision entry.
fn build_collision_node(c: &Collision) -> (r: CollisionNode)
    ensures
        r == spec_collision_node(*c),
{
    CollisionNode {
        mesh: resolve_geometry(&c.geometry),
        local: Transform { rot: c.origin.rot, t: c.origin.xyz },
    }
}

/// Builds the scene node of one link.
fn build_link_node(l: &Link, i: usize, tf: Transform) -> (r: LinkNode)
    ensures
        link_node_matches(*l, i as int, tf, r),
{
    let mut visuals: Vec<VisualNode> = Vec::new();
    let mut k: usize = 0;
    while k < l.visuals.len()
        invariant
            0 <= k <= l.visuals@.len(),
            visuals@.len() == k,
            forall|k0: int| 0 <= k0 < k ==> #[trigger] visuals@[k0] == spec_visual_node(
                l.visuals@[k0],
            ),
        decreases l.visuals@.len() - k,
    {
        visuals.push(build_visual_node(&l.visuals[k]));
        k = k + 1;
    }
    let mut collisions: Vec<CollisionNode> = Vec::new();
    let mut k2: usize = 0;
    while k2 < l.collisions.len()
        invariant
            0 <= k2 <= l.collisions@.len(),
            collisions@.len() == k2,
            forall|k0: int| 0 <= k0 < k2 ==> #[trigger] collisions@[k0] == spec_collision_node(
                l.collisions@[k0],
            ),
        decreases l.collisions@.len() - k2,
    {
        collisions.push(build_collision_node(&l.collisions[k2]));
        k2 = k2 + 1;
    }
    LinkNode {
        link: i,
        transform: tf,
        body: body_kind(i == 0),
        mass: mass_properties(&l.inertial),
        visuals,
        collisions,
    }
}

/// Builds the full scene of a robot under the given base transform and
/// composition policy. All link nodes are created first, then all joint
/// nodes. Under the render policy this always succeeds; under the physics
/// policy it returns `None` exactly when some world-transform composition
/// leaves the fixed-point bounds.
pub fn build_scene(robot: &Robot, base: &Transform, mode: SceneMode) -> (r: Option<Scene>)
    requires
        robot_wf(*robot),
        tf_wf(base@),
    ensures
        r matches Some(s) ==> {
            let resolved = scene_resolution(s);
            &&& resolution_matches(*robot, resolved, s.skipped_joints@)
            &&& scene_matches(*robot, resolved, s.skipped_joints@, scene_tfs(s), s)
            &&& (mode is RenderHierarchy ==> render_tfs_ok(*robot, base@, s))
            &&& (mode is PhysicsWorld ==> views_of(scene_tfs(s)) == world_after(
                robot.links@,
                robot.joints@,
                resolved,
                base@,
                resolved.len() as int,
            ))
        },
        mode is RenderHierarchy ==> r is Some,
        r is None ==> mode is PhysicsWorld && (forall|res: Seq<ResolvedJoint>, sk: Seq<usize>|
            resolution_matches(*robot, res, sk) ==> !steps_wf(
                robot.links@,
                robot.joints@,
                res,
                base@,
                res.len() as int,
            )),
{
    let (resolved, skipped) = resolve_joints(robot);
    proof {
        assert(resolved_in_range(robot.links@, robot.joints@, resolved@));
    }
    let tfs = match mode {
        SceneMode::RenderHierarchy => relative_link_transforms(robot, base),
        SceneMode::PhysicsWorld => {
            match world_link_transforms(robot, &resolved, base) {
                Option::Some(w) => w,
                Option::None => {
                    proof {
                        assert forall|res: Seq<ResolvedJoint>, sk: Seq<usize>|
                            resolution_matches(*robot, res, sk) implies !steps_wf(
                            robot.links@,
                            robot.joints@,
                            res,
                            base@,
                            res.len() as int,
                        ) by {
                            crate::tree::lemma_resolution_deterministic(
                                *robot,
                                res,
                                sk,
                                resolved@,
                                skipped@,
                            );
                        }
                    }
                    return Option::None;
                },
            }
        },
    };
    let mut links: Vec<LinkNode> = Vec::new();
    let mut i: usize = 0;
    while i < robot.links.len()
        invariant
            0 <= i <= robot.links@.len(),
            tfs@.len() == robot.links@.len(),
            links@.len() == i,
            forall|i0: int| 0 <= i0 < i ==> link_node_matches(
                robot.links@[i0],
                i0,
                tfs@[i0],
                #[trigger] links@[i0],
            ),
        decreases robot.links@.len() - i,
    {
        links.push(build_link_node(&robot.links[i], i, tfs[i]));
        i = i + 1;
    }
    let mut joints: Vec<JointNode> = Vec::new();
    let mut k: usize = 0;
    while k < resolved.len()
        invariant
            0 <= k <= resolved@.len(),
            joints@.len() == k,
            forall|k0: int| 0 <= k0 < resolved@.len() ==> (#[trigger] resolved@[k0]).joint
                < robot.joints@.len(),
            forall|k0: int| 0 <= k0 < k ==> #[trigger] joints@[k0] == spec_joint_node(
                robot.joints@,
                resolved@[k0],
            ),
        decreases resolved@.len() - k,
    {
        let rj = resolved[k];
        let j = &robot.joints[rj.joint];
        joints.push(
            JointNode {
                index: rj,
                local: Transform { rot: j.origin.rot, t: j.origin.xyz },
                binding: bind_joint(j),
            },
        );
        k = k + 1;
    }
    let s = Scene { links, joints, skipped_joints: skipped };
    proof {
        assert(scene_tfs(s) =~= tfs@);
        assert(scene_resolution(s) =~= resolved@);
        assert(resolution_matches(*robot, scene_resolution(s), s.skipped_joints@));
        assert(scene_matches(*robot, scene_resolution(s), s.skipped_joints@, scene_tfs(s), s));
    }
    Option::Some(s)
}

/// The per-link transforms a scene carries, in link order.
pub open spec fn scene_tfs(s: Scene) -> Seq<Transform> {
    s.links@.map_values(|n: LinkNode| n.transform)
}

/// The resolved joints a scene carries, in joint-node order.
pub open spec fn scene_resolution(s: Scene) -> Seq<ResolvedJoint> {
    s.joints@.map_values(|n: JointNode| n.index)
}

/// Two link nodes with the same observable content: same index,
/// transform, body kind, mass data, and the same visual and collision
/// children.
pub open spec fn link_nodes_agree(x: LinkNode, y: LinkNode) -> bool {
    &&& x.link == y.link
    &&& x.transform == y.transform
    &&& x.body == y.body
    &&& x.mass == y.mass
    &&& x.visuals@ == y.visuals@
    &&& x.collisions@ == y.collisions@
}

/// Building the scene is deterministic: two scenes that meet the build
/// contract for the same robot, with the same per-link transform images,
/// have the same hierarchy shape and the same rest transforms — node for
/// node, child for child.
pub proof fn lemma_build_deterministic(robot: Robot, a: Scene, b: Scene)
    requires
        resolution_matches(robot, scene_resolution(a), a.skipped_joints@),
        scene_matches(robot, scene_resolution(a), a.skipped_joints@, scene_tfs(a), a),
        resolution_matches(robot, scene_resolution(b), b.skipped_joints@),
        scene_matches(robot, scene_resolution(b), b.skipped_joints@, scene_tfs(b), b),
        views_of(scene_tfs(a)) == views_of(scene_tfs(b)),
    ensures
        a.links@.len() == b.links@.len(),
        forall|i: int| 0 <= i < a.links@.len() ==> link_nodes_agree(
            #[trigger] a.links@[i],
            b.links@[i],
        ),
        a.joints@ == b.joints@,
        a.skipped_joints@ == b.skipped_joints@,
{
    crate::tree::lemma_resolution_deterministic(
        robot,
        scene_resolution(a),
        a.skipped_joints@,
        scene_resolution(b),
        b.skipped_joints@,
    );
    assert forall|k: int| 0 <= k < a.joints@.len() implies #[trigger] a.joints@[k]
        == b.joints@[k] by {
        assert(scene_resolution(a)[k] == scene_resolution(b)[k]);
    }
    assert(a.joints@ =~= b.joints@);
    assert forall|i: int| 0 <= i < a.links@.len() implies link_nodes_agree(
        #[trigger] a.links@[i],
        b.links@[i],
    ) by {
        let x = a.links@[i];
        let y = b.links@[i];
        assert(link_node_matches(robot.links@[i], i, scene_tfs(a)[i], x));
        assert(link_node_matches(robot.links@[i], i, scene_tfs(b)[i], y));
        assert(views_of(scene_tfs(a))[i] == x.transform@);
        assert(views_of(scene_tfs(b))[i] == y.transform@);
        assert(x.transform@ == y.transform@);
        assert(x.transform == y.transform);
        assert(x.visuals@ =~= y.visuals@) by {
            assert forall|k: int| 0 <= k < x.visuals@.len() implies #[trigger] x.visuals@[k]
                == y.visuals@[k] by {
                assert(x.visuals@[k] == spec_visual_node(robot.links@[i].visuals@[k]));
                assert(y.visuals@[k] == spec_visual_node(robot.links@[i].visuals@[k]));
            }
        }
        assert(x.collisions@ =~= y.collisions@) by {
            assert forall|k: int| 0 <= k < x.collisions@.len() implies #[trigger] x.collisions@[k]
                == y.collisions@[k] by {
                assert(x.collisions@[k] == spec_collision_node(robot.links@[i].collisions@[k]));
                assert(y.collisions@[k] == spec_collision_node(robot.links@[i].collisions@[k]));
            }
        }
    }
}

/// The world transform of every link node of a physics scene is the base
/// transform composed with the product of the ancestor joint-origin
/// transforms along the tree path from the root, in root-to-link order —
/// provided the resolved joints form a tree read in topological order.
pub proof fn lemma_scene_world_is_ancestor_chain(
    robot: Robot,
    base: crate::math::SpecTransform,
    s: Scene,
    l: int,
)
    requires
        resolution_matches(robot, scene_resolution(s), s.skipped_joints@),
        scene_matches(robot, scene_resolution(s), s.skipped_joints@, scene_tfs(s), s),
        views_of(scene_tfs(s)) == world_after(
            robot.links@,
            robot.joints@,
            scene_resolution(s),
            base,
            scene_resolution(s).len() as int,
        ),
        crate::tree::forest_ok(scene_resolution(s)),
        0 <= l < robot.links@.len(),
    ensures
        s.links@[l].transform@ == crate::tree::path_transform(
            robot.links@,
            robot.joints@,
            scene_resolution(s),
            base,
            l,
            scene_resolution(s).len() as nat,
        ),
{
    let resolved = scene_resolution(s);
    assert(resolved_in_range(robot.links@, robot.joints@, resolved));
    crate::tree::lemma_setter_props(resolved, l);
    crate::tree::lemma_world_is_ancestor_chain(
        robot.links@,
        robot.joints@,
        resolved,
        base,
        l,
        resolved.len() as nat,
    );
    assert(views_of(scene_tfs(s))[l] == scene_tfs(s)[l]@);
    assert(scene_tfs(s)[l] == s.links@[l].transform);
}

/// The render-hierarchy transform policy: the root link node carries the
/// base transform, every other link node the identity.
pub open spec fn render_tfs_ok(robot: Robot, base: crate::math::SpecTransform, s: Scene) -> bool {
    &&& s.links@.len() > 0 ==> s.links@[0].transform@ == base
    &&& forall|i: int| 1 <= i < s.links@.len() ==> (#[trigger] s.links@[i].transform)@
        == crate::math::spec_identity()
}

} // verus!
