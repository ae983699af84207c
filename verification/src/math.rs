//! Fixed-point 3D algebra: vectors, rotation matrices and rigid transforms,
//! with exact specifications of every arithmetic step. A rigid transform is
//! a rotation matrix plus a translation; composing two applies the left one
//! after the right one, as the scene hierarchy does.

use vstd::prelude::*;

use crate::fixed::{
    div_trunc, fp_mul, fp_mul_exec, is_sqrt_floor, isqrt64, lemma_fp_mul_bound, lemma_fp_mul_one,
    sqrt_floor, FP_ONE,
};

verus! {

/// Magnitude bound kept for every rotation-matrix entry. Entries of a true
/// rotation matrix stay within the fixed-point unit; the slack covers the
/// rounding of composed and axis-angle-built matrices.
pub const ROT_LIM: i64 = 4_000_000;

/// Magnitude bound kept for every translation component: one million length
/// units in fixed point.
pub const TR_LIM: i64 = 1_000_000_000_000;

/// Magnitude bound demanded of raw axis components before normalization.
pub const AXIS_LIM: i64 = 2_000_000_000;

/// Mathematical image of a vector: three unbounded integers.
pub struct SpecVec3 {
    pub x: int,
    pub y: int,
    pub z: int,
}

/// Mathematical image of a 3 by 3 matrix, row major: `xy` is row x, column y.
pub struct SpecMat3 {
    pub xx: int,
    pub xy: int,
    pub xz: int,
    pub yx: int,
    pub yy: int,
    pub yz: int,
    pub zx: int,
    pub zy: int,
    pub zz: int,
}

/// Mathematical image of a rigid transform.
pub struct SpecTransform {
    pub rot: SpecMat3,
    pub t: SpecVec3,
}

/// A fixed-point 3-vector.
#[derive(Clone, Copy, PartialEq, Eq, Structural, Debug)]
pub struct Vec3 {
    pub x: i64,
    pub y: i64,
    pub z: i64,
}

/// A fixed-point 3 by 3 matrix, row major.
#[derive(Clone, Copy, PartialEq, Eq, Structural, Debug)]
pub struct Mat3 {
    pub xx: i64,
    pub xy: i64,
    pub xz: i64,
    pub yx: i64,
    pub yy: i64,
    pub yz: i64,
    pub zx: i64,
    pub zy: i64,
    pub zz: i64,
}

/// A rigid transform: rotation followed by translation.
#[derive(Clone, Copy, PartialEq, Eq, Structural, Debug)]
pub struct Transform {
    pub rot: Mat3,
    pub t: Vec3,
}

impl View for Vec3 {
    type V = SpecVec3;

    open spec fn view(&self) -> SpecVec3 {
        SpecVec3 { x: self.x as int, y: self.y as int, z: self.z as int }
    }
}

impl View for Mat3 {
    type V = SpecMat3;

    open spec fn view(&self) -> SpecMat3 {
        SpecMat3 {
            xx: self.xx as int,
            xy: self.xy as int,
            xz: self.xz as int,
            yx: self.yx as int,
            yy: self.yy as int,
            yz: self.yz as int,
            zx: self.zx as int,
            zy: self.zy as int,
            zz: self.zz as int,
        }
    }
}

impl View for Transform {
    type V = SpecTransform;

    open spec fn view(&self) -> SpecTransform {
        SpecTransform { rot: self.rot@, t: self.t@ }
    }
}

/// Every component of `v` lies within `lim`.
pub open spec fn vec_bounded(v: SpecVec3, lim: int) -> bool {
    &&& -lim <= v.x <= lim
    &&& -lim <= v.y <= lim
    &&& -lim <= v.z <= lim
}

/// Every entry of `m` lies within `lim`.
pub open spec fn mat_bounded(m: SpecMat3, lim: int) -> bool {
    &&& -lim <= m.xx <= lim
    &&& -lim <= m.xy <= lim
    &&& -lim <= m.xz <= lim
    &&& -lim <= m.yx <= lim
    &&& -lim <= m.yy <= lim
    &&& -lim <= m.yz <= lim
    &&& -lim <= m.zx <= lim
    &&& -lim <= m.zy <= lim
    &&& -lim <= m.zz <= lim
}

/// Well-formedness of a transform: rotation entries within `ROT_LIM`,
/// translation components within `TR_LIM`.
pub open spec fn tf_wf(t: SpecTransform) -> bool {
    &&& mat_bounded(t.rot, ROT_LIM as int)
    &&& vec_bounded(t.t, TR_LIM as int)
}

/// The identity transform in spec form.
pub open spec fn spec_identity() -> SpecTransform {
    SpecTransform {
        rot: SpecMat3 {
            xx: FP_ONE as int,
            xy: 0,
            xz: 0,
            yx: 0,
            yy: FP_ONE as int,
            yz: 0,
            zx: 0,
            zy: 0,
            zz: FP_ONE as int,
        },
        t: SpecVec3 { x: 0, y: 0, z: 0 },
    }
}

/// Fixed-point dot product of a matrix row with a column or vector.
pub open spec fn dot3(a1: int, a2: int, a3: int, b1: int, b2: int, b3: int) -> int {
    fp_mul(a1, b1) + fp_mul(a2, b2) + fp_mul(a3, b3)
}

/// Fixed-point matrix product.
pub open spec fn mat_mul(a: SpecMat3, b: SpecMat3) -> SpecMat3 {
    SpecMat3 {
        xx: dot3(a.xx, a.xy, a.xz, b.xx, b.yx, b.zx),
        xy: dot3(a.xx, a.xy, a.xz, b.xy, b.yy, b.zy),
        xz: dot3(a.xx, a.xy, a.xz, b.xz, b.yz, b.zz),
        yx: dot3(a.yx, a.yy, a.yz, b.xx, b.yx, b.zx),
        yy: dot3(a.yx, a.yy, a.yz, b.xy, b.yy, b.zy),
        yz: dot3(a.yx, a.yy, a.yz, b.xz, b.yz, b.zz),
        zx: dot3(a.zx, a.zy, a.zz, b.xx, b.yx, b.zx),
        zy: dot3(a.zx, a.zy, a.zz, b.xy, b.yy, b.zy),
        zz: dot3(a.zx, a.zy, a.zz, b.xz, b.yz, b.zz),
    }
}

/// Fixed-point rotation of a vector by a matrix.
pub open spec fn mat_apply(m: SpecMat3, v: SpecVec3) -> SpecVec3 {
    SpecVec3 {
        x: dot3(m.xx, m.xy, m.xz, v.x, v.y, v.z),
        y: dot3(m.yx, m.yy, m.yz, v.x, v.y, v.z),
        z: dot3(m.zx, m.zy, m.zz, v.x, v.y, v.z),
    }
}

/// Componentwise vector sum.
pub open spec fn vec_add(a: SpecVec3, b: SpecVec3) -> SpecVec3 {
    SpecVec3 { x: a.x + b.x, y: a.y + b.y, z: a.z + b.z }
}

/// Composition of rigid transforms: the left one applied after the right
/// one. The translation is the left translation plus the left rotation
/// applied to the right translation; the rotation is the matrix product.
pub open spec fn spec_compose(a: SpecTransform, b: SpecTransform) -> SpecTransform {
    SpecTransform { rot: mat_mul(a.rot, b.rot), t: vec_add(a.t, mat_apply(a.rot, b.t)) }
}

impl Vec3 {
    /// The zero vector.
    pub fn zero() -> (r: Vec3)
        ensures
            r@ == (SpecVec3 { x: 0, y: 0, z: 0 }),
    {
        Vec3 { x: 0, y: 0, z: 0 }
    }
}

impl Transform {
    /// The identity transform.
    pub fn identity() -> (r: Transform)
        ensures
            r@ == spec_identity(),
            tf_wf(r@),
    {
        Transform {
            rot: Mat3 {
                xx: FP_ONE,
                xy: 0,
                xz: 0,
                yx: 0,
                yy: FP_ONE,
                yz: 0,
                zx: 0,
                zy: 0,
                zz: FP_ONE,
            },
            t: Vec3 { x: 0, y: 0, z: 0 },
        }
    }
}

/// One fixed-point row-by-column term, with the bounds its callers need.
fn dot3_exec(
    a1: i64,
    a2: i64,
    a3: i64,
    b1: i64,
    b2: i64,
    b3: i64,
    Ghost(ma): Ghost<int>,
    Ghost(mb): Ghost<int>,
) -> (r: i64)
    requires
        0 <= ma,
        0 <= mb,
        ma * mb <= i64::MAX,
        3 * div_trunc(ma * mb, FP_ONE as int) <= i64::MAX,
        -ma <= a1 as int <= ma,
        -ma <= a2 as int <= ma,
        -ma <= a3 as int <= ma,
        -mb <= b1 as int <= mb,
        -mb <= b2 as int <= mb,
        -mb <= b3 as int <= mb,
    ensures
        r == dot3(a1 as int, a2 as int, a3 as int, b1 as int, b2 as int, b3 as int),
        -3 * div_trunc(ma * mb, FP_ONE as int) <= r as int <= 3 * div_trunc(
            ma * mb,
            FP_ONE as int,
        ),
{
    proof {
        assert(-(ma * mb) <= a1 as int * b1 as int <= ma * mb) by (nonlinear_arith)
            requires
                -ma <= a1 as int <= ma,
                -mb <= b1 as int <= mb,
                0 <= ma,
                0 <= mb,
        ;
        assert(-(ma * mb) <= a2 as int * b2 as int <= ma * mb) by (nonlinear_arith)
            requires
                -ma <= a2 as int <= ma,
                -mb <= b2 as int <= mb,
                0 <= ma,
                0 <= mb,
        ;
        assert(-(ma * mb) <= a3 as int * b3 as int <= ma * mb) by (nonlinear_arith)
            requires
                -ma <= a3 as int <= ma,
                -mb <= b3 as int <= mb,
                0 <= ma,
                0 <= mb,
        ;
        lemma_fp_mul_bound(a1 as int, b1 as int, ma, mb);
        lemma_fp_mul_bound(a2 as int, b2 as int, ma, mb);
        lemma_fp_mul_bound(a3 as int, b3 as int, ma, mb);
    }
    let p1 = fp_mul_exec(a1, b1);
    let p2 = fp_mul_exec(a2, b2);
    let p3 = fp_mul_exec(a3, b3);
    p1 + p2 + p3
}

/// Composes two well-formed rigid transforms, the left applied after the
/// right. Returns the exact fixed-point composition, or `None` when that
/// composition leaves the well-formedness bounds.
pub fn compose(a: &Transform, b: &Transform) -> (r: Option<Transform>)
    requires
        tf_wf(a@),
        tf_wf(b@),
    ensures
        match r {
            Some(c) => c@ == spec_compose(a@, b@) && tf_wf(c@),
            None => !tf_wf(spec_compose(a@, b@)),
        },
{
    let ghost mr: int = ROT_LIM as int;
    let ghost mt: int = TR_LIM as int;
    let rot = Mat3 {
        xx: dot3_exec(a.rot.xx, a.rot.xy, a.rot.xz, b.rot.xx, b.rot.yx, b.rot.zx, Ghost(mr), Ghost(mr)),
        xy: dot3_exec(a.rot.xx, a.rot.xy, a.rot.xz, b.rot.xy, b.rot.yy, b.rot.zy, Ghost(mr), Ghost(mr)),
        xz: dot3_exec(a.rot.xx, a.rot.xy, a.rot.xz, b.rot.xz, b.rot.yz, b.rot.zz, Ghost(mr), Ghost(mr)),
        yx: dot3_exec(a.rot.yx, a.rot.yy, a.rot.yz, b.rot.xx, b.rot.yx, b.rot.zx, Ghost(mr), Ghost(mr)),
        yy: dot3_exec(a.rot.yx, a.rot.yy, a.rot.yz, b.rot.xy, b.rot.yy, b.rot.zy, Ghost(mr), Ghost(mr)),
        yz: dot3_exec(a.rot.yx, a.rot.yy, a.rot.yz, b.rot.xz, b.rot.yz, b.rot.zz, Ghost(mr), Ghost(mr)),
        zx: dot3_exec(a.rot.zx, a.rot.zy, a.rot.zz, b.rot.xx, b.rot.yx, b.rot.zx, Ghost(mr), Ghost(mr)),
        zy: dot3_exec(a.rot.zx, a.rot.zy, a.rot.zz, b.rot.xy, b.rot.yy, b.rot.zy, Ghost(mr), Ghost(mr)),
        zz: dot3_exec(a.rot.zx, a.rot.zy, a.rot.zz, b.rot.xz, b.rot.yz, b.rot.zz, Ghost(mr), Ghost(mr)),
    };
    let tx = a.t.x + dot3_exec(a.rot.xx, a.rot.xy, a.rot.xz, b.t.x, b.t.y, b.t.z, Ghost(mr), Ghost(mt));
    let ty = a.t.y + dot3_exec(a.rot.yx, a.rot.yy, a.rot.yz, b.t.x, b.t.y, b.t.z, Ghost(mr), Ghost(mt));
    let tz = a.t.z + dot3_exec(a.rot.zx, a.rot.zy, a.rot.zz, b.t.x, b.t.y, b.t.z, Ghost(mr), Ghost(mt));
    let c = Transform { rot, t: Vec3 { x: tx, y: ty, z: tz } };
    proof {
        assert(c@ == spec_compose(a@, b@));
    }
    if rot.xx < -ROT_LIM || rot.xx > ROT_LIM || rot.xy < -ROT_LIM || rot.xy > ROT_LIM
        || rot.xz < -ROT_LIM || rot.xz > ROT_LIM || rot.yx < -ROT_LIM || rot.yx > ROT_LIM
        || rot.yy < -ROT_LIM || rot.yy > ROT_LIM || rot.yz < -ROT_LIM || rot.yz > ROT_LIM
        || rot.zx < -ROT_LIM || rot.zx > ROT_LIM || rot.zy < -ROT_LIM || rot.zy > ROT_LIM
        || rot.zz < -ROT_LIM || rot.zz > ROT_LIM || tx < -TR_LIM || tx > TR_LIM || ty < -TR_LIM
        || ty > TR_LIM || tz < -TR_LIM || tz > TR_LIM {
        None
    } else {
        Some(c)
    }
}

/// The squared length of `v`, before any scaling down.
pub open spec fn norm2(v: SpecVec3) -> int {
    v.x * v.x + v.y * v.y + v.z * v.z
}

/// The fixed-point unit vector along `v`: each component scaled up by the
/// unit and divided by the floor square root of the squared length.
pub open spec fn spec_normalize(v: SpecVec3) -> SpecVec3 {
    let n = sqrt_floor(norm2(v));
    SpecVec3 {
        x: div_trunc(v.x * FP_ONE, n),
        y: div_trunc(v.y * FP_ONE, n),
        z: div_trunc(v.z * FP_ONE, n),
    }
}

/// Scales `v` to fixed-point unit length, rounding each component toward
/// zero. Returns `None` exactly for the zero vector, which has no direction.
pub fn normalize(v: &Vec3) -> (r: Option<Vec3>)
    requires
        vec_bounded(v@, AXIS_LIM as int),
    ensures
        r is Some <==> !(v.x == 0 && v.y == 0 && v.z == 0),
        r is Some ==> r->0@ == spec_normalize(v@) && vec_bounded(r->0@, FP_ONE as int),
{
    proof {
        assert(0 <= v.x as int * v.x as int <= AXIS_LIM as int * AXIS_LIM as int)
            by (nonlinear_arith)
            requires
                -AXIS_LIM as int <= v.x as int <= AXIS_LIM as int,
        ;
        assert(0 <= v.y as int * v.y as int <= AXIS_LIM as int * AXIS_LIM as int)
            by (nonlinear_arith)
            requires
                -AXIS_LIM as int <= v.y as int <= AXIS_LIM as int,
        ;
        assert(0 <= v.z as int * v.z as int <= AXIS_LIM as int * AXIS_LIM as int)
            by (nonlinear_arith)
            requires
                -AXIS_LIM as int <= v.z as int <= AXIS_LIM as int,
        ;
    }
    let sx: i64 = v.x * v.x;
    let sy: i64 = v.y * v.y;
    let sz: i64 = v.z * v.z;
    let n2: u64 = sx as u64 + sy as u64 + sz as u64;
    proof {
        assert(n2 as int == norm2(v@));
        if n2 == 0 {
            assert(v.x == 0 && v.y == 0 && v.z == 0) by (nonlinear_arith)
                requires
                    v.x as int * v.x as int + v.y as int * v.y as int + v.z as int * v.z as int
                        == 0,
            ;
        }
    }
    if n2 == 0 {
        return None;
    }
    let n = isqrt64(n2);
    proof {
        assert(n >= 1) by (nonlinear_arith)
            requires
                is_sqrt_floor(n2 as int, n as int),
                n2 >= 1,
        ;
        assert(n <= 4_294_967_296) by (nonlinear_arith)
            requires
                is_sqrt_floor(n2 as int, n as int),
                n2 <= u64::MAX,
        ;
        lemma_normalize_component(v.x as int, n2 as int, n as int);
        lemma_normalize_component(v.y as int, n2 as int, n as int);
        lemma_normalize_component(v.z as int, n2 as int, n as int);
    }
    let d: i64 = n as i64;
    let qx = (v.x * FP_ONE).checked_div(d);
    let qy = (v.y * FP_ONE).checked_div(d);
    let qz = (v.z * FP_ONE).checked_div(d);
    proof {
        assert(qx is Some && qx->0 == div_trunc(v.x as int * FP_ONE as int, d as int));
        assert(qy is Some && qy->0 == div_trunc(v.y as int * FP_ONE as int, d as int));
        assert(qz is Some && qz->0 == div_trunc(v.z as int * FP_ONE as int, d as int));
        if v.x == 0 && v.y == 0 && v.z == 0 {
            assert(norm2(v@) == 0) by (nonlinear_arith)
                requires
                    v.x as int == 0 && v.y as int == 0 && v.z as int == 0,
            ;
            assert(false);
        }
    }
    Some(Vec3 { x: qx.unwrap(), y: qy.unwrap(), z: qz.unwrap() })
}

/// A component of a vector never exceeds the floor square root of the
/// vector's squared length, so normalized components stay within the unit.
proof fn lemma_normalize_component(c: int, n2: int, n: int)
    requires
        is_sqrt_floor(n2, n),
        n >= 1,
        c * c <= n2,
        -(AXIS_LIM as int) <= c <= AXIS_LIM as int,
    ensures
        -n <= c <= n,
        -(FP_ONE as int) <= div_trunc(c * FP_ONE, n) <= FP_ONE as int,
        i64::MIN <= c * FP_ONE <= i64::MAX,
{
    assert(-n <= c <= n) by (nonlinear_arith)
        requires
            is_sqrt_floor(n2, n),
            c * c <= n2,
    ;
    assert(i64::MIN <= c * FP_ONE <= i64::MAX) by (nonlinear_arith)
        requires
            -(AXIS_LIM as int) <= c <= AXIS_LIM as int,
    ;
    if c >= 0 {
        assert((c * FP_ONE) / n <= FP_ONE as int) by (nonlinear_arith)
            requires
                0 <= c <= n,
                n >= 1,
        ;
        assert((c * FP_ONE) / n >= 0) by (nonlinear_arith)
            requires
                c >= 0,
                n >= 1,
        ;
    } else {
        assert(((-(c * FP_ONE)) / n) <= FP_ONE as int) by (nonlinear_arith)
            requires
                -n <= c < 0,
                n >= 1,
        ;
        assert(((-(c * FP_ONE)) / n) >= 0) by (nonlinear_arith)
            requires
                c < 0,
                n >= 1,
        ;
    }
}

/// The Rodrigues rotation matrix for a turn about the fixed-point unit axis
/// `u`, whose cosine and sine are `c` and `s`: the fixed-point image of
/// `cos I + sin K + (1 - cos) u uT`, with `K` the cross-product matrix of
/// `u`.
pub open spec fn rodrigues(u: SpecVec3, c: int, s: int) -> SpecMat3 {
    let k = FP_ONE as int - c;
    SpecMat3 {
        xx: c + fp_mul(k, fp_mul(u.x, u.x)),
        xy: fp_mul(k, fp_mul(u.x, u.y)) - fp_mul(s, u.z),
        xz: fp_mul(k, fp_mul(u.x, u.z)) + fp_mul(s, u.y),
        yx: fp_mul(k, fp_mul(u.x, u.y)) + fp_mul(s, u.z),
        yy: c + fp_mul(k, fp_mul(u.y, u.y)),
        yz: fp_mul(k, fp_mul(u.y, u.z)) - fp_mul(s, u.x),
        zx: fp_mul(k, fp_mul(u.x, u.z)) - fp_mul(s, u.y),
        zy: fp_mul(k, fp_mul(u.y, u.z)) + fp_mul(s, u.x),
        zz: c + fp_mul(k, fp_mul(u.z, u.z)),
    }
}

/// One entry of the Rodrigues matrix: versine times an axis product, plus
/// or minus a sine term.
fn rodrigues_entry(k: i64, ui: i64, uj: i64, s: i64, uk: i64, negate_sine: bool) -> (r: i64)
    requires
        0 <= k <= 2 * FP_ONE,
        -FP_ONE <= ui <= FP_ONE,
        -FP_ONE <= uj <= FP_ONE,
        -FP_ONE <= s <= FP_ONE,
        -FP_ONE <= uk <= FP_ONE,
    ensures
        negate_sine ==> r == fp_mul(k as int, fp_mul(ui as int, uj as int)) - fp_mul(
            s as int,
            uk as int,
        ),
        !negate_sine ==> r == fp_mul(k as int, fp_mul(ui as int, uj as int)) + fp_mul(
            s as int,
            uk as int,
        ),
        -3 * FP_ONE <= r <= 3 * FP_ONE,
{
    proof {
        lemma_fp_mul_bound(ui as int, uj as int, FP_ONE as int, FP_ONE as int);
        lemma_fp_mul_bound(s as int, uk as int, FP_ONE as int, FP_ONE as int);
        assert(div_trunc(FP_ONE as int * FP_ONE as int, FP_ONE as int) == FP_ONE as int)
            by (nonlinear_arith);
    }
    let uij = fp_mul_exec(ui, uj);
    proof {
        lemma_fp_mul_bound(k as int, uij as int, 2 * FP_ONE as int, FP_ONE as int);
    }
    let a = fp_mul_exec(k, uij);
    let b = fp_mul_exec(s, uk);
    proof {
        lemma_fp_mul_bound(k as int, uij as int, 2 * FP_ONE as int, FP_ONE as int);
        assert(div_trunc((2 * FP_ONE as int) * (FP_ONE as int), FP_ONE as int) == 2 * FP_ONE as int)
            by (nonlinear_arith);
    }
    if negate_sine {
        a - b
    } else {
        a + b
    }
}

/// Builds the axis-angle rotation matrix about the fixed-point unit axis
/// `u`, given the fixed-point cosine and sine of the angle. All entries of
/// the result stay within the rotation bound.
pub fn axis_angle_matrix(u: &Vec3, c: i64, s: i64) -> (r: Mat3)
    requires
        vec_bounded(u@, FP_ONE as int),
        -FP_ONE <= c <= FP_ONE,
        -FP_ONE <= s <= FP_ONE,
    ensures
        r@ == rodrigues(u@, c as int, s as int),
        mat_bounded(r@, ROT_LIM as int),
{
    let k = FP_ONE - c;
    let xy = rodrigues_entry(k, u.x, u.y, s, u.z, true);
    let xz = rodrigues_entry(k, u.x, u.z, s, u.y, false);
    let yx = rodrigues_entry(k, u.x, u.y, s, u.z, false);
    let yz = rodrigues_entry(k, u.y, u.z, s, u.x, true);
    let zx = rodrigues_entry(k, u.x, u.z, s, u.y, true);
    let zy = rodrigues_entry(k, u.y, u.z, s, u.x, false);
    let dx = rodrigues_entry(k, u.x, u.x, 0, 0, false);
    let dy = rodrigues_entry(k, u.y, u.y, 0, 0, false);
    let dz = rodrigues_entry(k, u.z, u.z, 0, 0, false);
    proof {
        assert(fp_mul(0, 0) == 0) by {
            lemma_fp_mul_one(0);
        }
    }
    Mat3 {
        xx: c + dx,
        xy,
        xz,
        yx,
        yy: c + dy,
        yz,
        zx,
        zy,
        zz: c + dz,
    }
}

/// At angle zero the axis-angle matrix is exactly the identity rotation.
pub proof fn lemma_rodrigues_zero_angle(u: SpecVec3)
    ensures
        rodrigues(u, FP_ONE as int, 0) == spec_identity().rot,
{
    lemma_fp_mul_one(u.x);
    lemma_fp_mul_one(u.y);
    lemma_fp_mul_one(u.z);
    assert(fp_mul(0, fp_mul(u.x, u.x)) == 0) by {
        lemma_fp_mul_one(fp_mul(u.x, u.x));
    }
    assert(fp_mul(0, fp_mul(u.y, u.y)) == 0) by {
        lemma_fp_mul_one(fp_mul(u.y, u.y));
    }
    assert(fp_mul(0, fp_mul(u.z, u.z)) == 0) by {
        lemma_fp_mul_one(fp_mul(u.z, u.z));
    }
    assert(fp_mul(0, fp_mul(u.x, u.y)) == 0) by {
        lemma_fp_mul_one(fp_mul(u.x, u.y));
    }
    assert(fp_mul(0, fp_mul(u.x, u.z)) == 0) by {
        lemma_fp_mul_one(fp_mul(u.x, u.z));
    }
    assert(fp_mul(0, fp_mul(u.y, u.z)) == 0) by {
        lemma_fp_mul_one(fp_mul(u.y, u.z));
    }
}

/// The identity transform is within the transform bounds.
pub proof fn lemma_identity_wf()
    ensures
        tf_wf(spec_identity()),
{
}

/// The identity rotation is a two-sided unit of the fixed-point matrix
/// product, exactly: no rounding is lost against the unit.
pub proof fn lemma_mat_mul_identity(m: SpecMat3)
    ensures
        mat_mul(m, spec_identity().rot) == m,
        mat_mul(spec_identity().rot, m) == m,
{
    lemma_fp_mul_one(m.xx);
    lemma_fp_mul_one(m.xy);
    lemma_fp_mul_one(m.xz);
    lemma_fp_mul_one(m.yx);
    lemma_fp_mul_one(m.yy);
    lemma_fp_mul_one(m.yz);
    lemma_fp_mul_one(m.zx);
    lemma_fp_mul_one(m.zy);
    lemma_fp_mul_one(m.zz);
}

/// Rotating the zero vector gives the zero vector, exactly.
pub proof fn lemma_mat_apply_zero(m: SpecMat3)
    ensures
        mat_apply(m, SpecVec3 { x: 0, y: 0, z: 0 }) == (SpecVec3 { x: 0, y: 0, z: 0 }),
{
    lemma_fp_mul_one(m.xx);
    lemma_fp_mul_one(m.xy);
    lemma_fp_mul_one(m.xz);
    lemma_fp_mul_one(m.yx);
    lemma_fp_mul_one(m.yy);
    lemma_fp_mul_one(m.yz);
    lemma_fp_mul_one(m.zx);
    lemma_fp_mul_one(m.zy);
    lemma_fp_mul_one(m.zz);
}

/// The identity is a left and right unit of fixed-point composition on
/// bounded transforms, exactly: no rounding is lost against the unit.
pub proof fn lemma_compose_identity(a: SpecTransform)
    ensures
        spec_compose(a, spec_identity()) == a,
        spec_compose(spec_identity(), a) == a,
{
    lemma_mat_mul_identity(a.rot);
    lemma_mat_apply_zero(a.rot);
    lemma_fp_mul_one(a.t.x);
    lemma_fp_mul_one(a.t.y);
    lemma_fp_mul_one(a.t.z);
}

} // verus!
