//! The geometry resolver: maps a geometry variant and an optional material
//! to the mesh and color the scene will carry. Unsupported variants resolve
//! to no mesh, so the entity is skipped rather than failing the build;
//! texture references fall back to the default color.

use vstd::prelude::*;

use crate::fixed::{div_trunc, FP_ONE};
use crate::math::{SpecVec3, Vec3};
use crate::model::{Geometry, Material, Rgba};

verus! {

/// The default base-color channel: 0.8 in fixed point.
pub const GRAY_CHANNEL: i64 = 800_000;

/// A request for a renderable mesh. A cuboid takes the three full extents
/// of the description, not half-extents; a cylinder takes the engine's
/// half-height parameter, which this library fixes project-wide as half of
/// the description's full length; a file mesh is loaded asynchronously by
/// the host and carries the non-uniform scale to apply to its render
/// transform, the unit scale when the description gives none.
#[derive(Clone, PartialEq, Eq, Debug)]
pub enum MeshSpec {
    CuboidMesh { extents: Vec3 },
    CylinderMesh { radius: i64, half_height: i64 },
    SphereMesh { radius: i64 },
    FileMesh { filename: String, scale: Vec3 },
}

/// The fixed-point unit scale.
pub open spec fn spec_unit_scale() -> SpecVec3 {
    SpecVec3 { x: FP_ONE as int, y: FP_ONE as int, z: FP_ONE as int }
}

/// The default gray color, used when a material gives no color or names a
/// texture.
pub open spec fn spec_default_color() -> Rgba {
    Rgba { r: GRAY_CHANNEL, g: GRAY_CHANNEL, b: GRAY_CHANNEL, a: FP_ONE }
}

/// The default gray color as a value.
pub fn default_color() -> (r: Rgba)
    ensures
        r == spec_default_color(),
{
    Rgba { r: GRAY_CHANNEL, g: GRAY_CHANNEL, b: GRAY_CHANNEL, a: FP_ONE }
}

/// What a geometry variant resolves to: the exact mesh request, or none
/// for the unsupported variants.
pub open spec fn spec_resolve_geometry(g: Geometry) -> Option<MeshSpec> {
    match g {
        Geometry::Cuboid { size } => Option::Some(MeshSpec::CuboidMesh { extents: size }),
        Geometry::Cylinder { radius, length } => Option::Some(
            MeshSpec::CylinderMesh { radius, half_height: div_trunc(length as int, 2) as i64 },
        ),
        Geometry::Sphere { radius } => Option::Some(MeshSpec::SphereMesh { radius }),
        Geometry::MeshFile { filename, scale } => Option::Some(
            MeshSpec::FileMesh {
                filename,
                scale: match scale {
                    Option::Some(s) => s,
                    Option::None => Vec3 { x: FP_ONE, y: FP_ONE, z: FP_ONE },
                },
            },
        ),
        Geometry::Unsupported => Option::None,
    }
}

/// Resolves a geometry variant to its mesh request, or to `None` for the
/// unsupported variants, which the caller skips with a warning.
pub fn resolve_geometry(g: &Geometry) -> (r: Option<MeshSpec>)
    ensures
        r == spec_resolve_geometry(*g),
        g is Unsupported <==> r is None,
        g matches Geometry::Cuboid { size } ==> r matches Some(m) && m matches
            MeshSpec::CuboidMesh { extents } && extents == size,
        g matches Geometry::Cylinder { radius, length } ==> r matches Some(m) && m matches
            MeshSpec::CylinderMesh { radius: mr, half_height } && mr == radius && half_height
            == div_trunc(length as int, 2),
        g matches Geometry::Sphere { radius } ==> r matches Some(m) && m matches
            MeshSpec::SphereMesh { radius: mr } && mr == radius,
        g matches Geometry::MeshFile { filename, scale } ==> r matches Some(m) && m matches
            MeshSpec::FileMesh { filename: mf, scale: ms } && mf@ == filename@ && ms@ == (
        match scale {
            Some(s) => s@,
            None => spec_unit_scale(),
        }),
{
    match g {
        Geometry::Cuboid { size } => Some(MeshSpec::CuboidMesh { extents: *size }),
        Geometry::Cylinder { radius, length } => {
            let h = length.checked_div(2);
            proof {
                assert(h is Some && h->0 == div_trunc(*length as int, 2));
            }
            Some(MeshSpec::CylinderMesh { radius: *radius, half_height: h.unwrap() })
        },
        Geometry::Sphere { radius } => Some(MeshSpec::SphereMesh { radius: *radius }),
        Geometry::MeshFile { filename, scale } => {
            let s = match scale {
                Some(s) => *s,
                None => Vec3 { x: FP_ONE, y: FP_ONE, z: FP_ONE },
            };
            Some(MeshSpec::FileMesh { filename: clone_string(filename), scale: s })
        },
        Geometry::Unsupported => None,
    }
}

/// Clones a string, keeping its characters.
pub fn clone_string(s: &String) -> (r: String)
    ensures
        r == s,
{
    s.clone()
}

/// The color a material resolves to: the default gray when there is no
/// material or no color, or when the material names a texture, which is
/// unsupported and overrides any color.
pub open spec fn spec_resolve_color(m: Option<Material>) -> Rgba {
    match m {
        Option::Some(mat) => {
            if mat.texture is Some {
                spec_default_color()
            } else {
                match mat.color {
                    Option::Some(c) => c,
                    Option::None => spec_default_color(),
                }
            }
        },
        Option::None => spec_default_color(),
    }
}

/// Resolves a material to its base color, flagging the unsupported-texture
/// fallback so the caller can log the warning.
pub fn resolve_material(m: &Option<Material>) -> (r: (Rgba, bool))
    ensures
        r.0 == spec_resolve_color(*m),
        r.1 <==> (m matches Some(mat) && mat.texture is Some),
{
    match m {
        Option::Some(mat) => {
            if mat.texture.is_some() {
                (default_color(), true)
            } else {
                match &mat.color {
                    Option::Some(c) => (*c, false),
                    Option::None => (default_color(), false),
                }
            }
        },
        Option::None => (default_color(), false),
    }
}

} // verus!
