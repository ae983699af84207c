use urdf_scene::fixed::{clamp_fp, fp_mul_exec, isqrt64, FP_ONE};
use urdf_scene::math::{axis_angle_matrix, compose, normalize, Mat3, Transform, Vec3};

fn identity_mat() -> Mat3 {
    Mat3 { xx: FP_ONE, xy: 0, xz: 0, yx: 0, yy: FP_ONE, yz: 0, zx: 0, zy: 0, zz: FP_ONE }
}

fn identity_tf() -> Transform {
    Transform { rot: identity_mat(), t: Vec3 { x: 0, y: 0, z: 0 } }
}

#[test]
fn fp_mul_scales_back_exactly() {
    assert_eq!(fp_mul_exec(1_500_000, 2_000_000), 3_000_000);
    assert_eq!(fp_mul_exec(FP_ONE, FP_ONE), FP_ONE);
    assert_eq!(fp_mul_exec(0, 123_456), 0);
}

#[test]
fn fp_mul_truncates_toward_zero() {
    assert_eq!(fp_mul_exec(-1, 1), 0);
    assert_eq!(fp_mul_exec(1, -1), 0);
    assert_eq!(fp_mul_exec(-1_500_000, 1_000_001), -1_500_001);
    assert_eq!(fp_mul_exec(1_500_000, 1_000_001), 1_500_001);
}

#[test]
fn isqrt_exact_squares_and_neighbors() {
    assert_eq!(isqrt64(0), 0);
    assert_eq!(isqrt64(1), 1);
    assert_eq!(isqrt64(24), 4);
    assert_eq!(isqrt64(25), 5);
    assert_eq!(isqrt64(26), 5);
    assert_eq!(isqrt64(u64::MAX), 4_294_967_295);
}

#[test]
fn clamp_picks_nearest_bound() {
    assert_eq!(clamp_fp(5, -3, 3), 3);
    assert_eq!(clamp_fp(-5, -3, 3), -3);
    assert_eq!(clamp_fp(2, -3, 3), 2);
}

#[test]
fn normalize_three_four_five() {
    let v = Vec3 { x: 3_000_000, y: 0, z: 4_000_000 };
    let u = normalize(&v).unwrap();
    assert_eq!(u, Vec3 { x: 600_000, y: 0, z: 800_000 });
}

#[test]
fn normalize_zero_vector_has_no_direction() {
    assert!(normalize(&Vec3 { x: 0, y: 0, z: 0 }).is_none());
}

#[test]
fn axis_angle_quarter_turn_about_z() {
    let u = Vec3 { x: 0, y: 0, z: FP_ONE };
    let m = axis_angle_matrix(&u, 0, FP_ONE);
    assert_eq!(m.xx, 0);
    assert_eq!(m.xy, -FP_ONE);
    assert_eq!(m.yx, FP_ONE);
    assert_eq!(m.yy, 0);
    assert_eq!(m.zz, FP_ONE);
    assert_eq!(m.xz, 0);
    assert_eq!(m.yz, 0);
    assert_eq!(m.zx, 0);
    assert_eq!(m.zy, 0);
}

#[test]
fn axis_angle_zero_angle_is_identity() {
    let u = Vec3 { x: 0, y: FP_ONE, z: 0 };
    let m = axis_angle_matrix(&u, FP_ONE, 0);
    assert_eq!(m, identity_mat());
}

#[test]
fn compose_with_identity_keeps_transform() {
    let t = Transform {
        rot: Mat3 { xx: FP_ONE, xy: 0, xz: 0, yx: 0, yy: 0, yz: -FP_ONE, zx: 0, zy: FP_ONE, zz: 0 },
        t: Vec3 { x: 7, y: -9, z: 11 },
    };
    assert_eq!(compose(&t, &identity_tf()).unwrap(), t);
    assert_eq!(compose(&identity_tf(), &t).unwrap(), t);
}

#[test]
fn compose_adds_translations_under_identity_rotation() {
    let a = Transform { rot: identity_mat(), t: Vec3 { x: 1_000_000, y: 0, z: 0 } };
    let b = Transform { rot: identity_mat(), t: Vec3 { x: 0, y: 2_000_000, z: 0 } };
    let c = compose(&a, &b).unwrap();
    assert_eq!(c.t, Vec3 { x: 1_000_000, y: 2_000_000, z: 0 });
    assert_eq!(c.rot, identity_mat());
}

#[test]
fn compose_refuses_results_beyond_the_bounds() {
    // Two transforms at the very edge of the rotation bound: their product
    // entries land far outside it, so the composition reports no result
    // rather than a silently wrapped one.
    let lim = urdf_scene::math::ROT_LIM;
    let extreme = Mat3 { xx: lim, xy: lim, xz: lim, yx: lim, yy: lim, yz: lim, zx: lim, zy: lim, zz: lim };
    let t = Transform { rot: extreme, t: Vec3 { x: 0, y: 0, z: 0 } };
    assert!(compose(&t, &t).is_none());
}

#[test]
fn compose_rotates_the_right_translation() {
    // A quarter turn about x (sending y to z), then a step of one unit
    // along y in the child frame: the step comes out along z.
    let rot_x = Mat3 { xx: FP_ONE, xy: 0, xz: 0, yx: 0, yy: 0, yz: -FP_ONE, zx: 0, zy: FP_ONE, zz: 0 };
    let a = Transform { rot: rot_x, t: Vec3 { x: 0, y: 0, z: 0 } };
    let b = Transform { rot: identity_mat(), t: Vec3 { x: 0, y: FP_ONE, z: 0 } };
    let c = compose(&a, &b).unwrap();
    assert_eq!(c.t, Vec3 { x: 0, y: 0, z: FP_ONE });
    assert_eq!(c.rot, rot_x);
}
