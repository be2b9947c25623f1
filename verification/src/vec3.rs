//! Three-component fixed-point vectors.
//!
//! `Vec3` is the stored form (one `i64` raw coordinate per axis); `T3` is the
//! wide working form used while a step computes; `V3` is the mathematical
//! model both are read through in contracts.

use vstd::prelude::*;

verus! {

use crate::fx::{
    divt, mulfx, sat, FX_ONE, div_t, mul_i, sat_i, isqrt_i, sqrt_rec, lemma_mul_bound,
    lemma_divt_bound,
};

/// A stored fixed-point vector: each component is `raw / FX_ONE` world units.
#[derive(Clone, Copy, PartialEq, Eq, Structural, Debug)]
pub struct Vec3 {
    pub x: i64,
    pub y: i64,
    pub z: i64,
}

/// The mathematical model of a vector: three unbounded integers.
pub struct V3 {
    pub x: int,
    pub y: int,
    pub z: int,
}

/// A wide intermediate vector used inside one solver step.
#[derive(Clone, Copy)]
pub struct T3 {
    pub x: i128,
    pub y: i128,
    pub z: i128,
}

impl View for Vec3 {
    type V = V3;

    open spec fn view(&self) -> V3 {
        V3 { x: self.x as int, y: self.y as int, z: self.z as int }
    }
}

impl View for T3 {
    type V = V3;

    open spec fn view(&self) -> V3 {
        V3 { x: self.x as int, y: self.y as int, z: self.z as int }
    }
}

pub open spec fn vbounded(a: V3, m: int) -> bool {
    -m <= a.x <= m && -m <= a.y <= m && -m <= a.z <= m
}

pub open spec fn vadd(a: V3, b: V3) -> V3 {
    V3 { x: a.x + b.x, y: a.y + b.y, z: a.z + b.z }
}

pub open spec fn vsub(a: V3, b: V3) -> V3 {
    V3 { x: a.x - b.x, y: a.y - b.y, z: a.z - b.z }
}

pub open spec fn vneg(a: V3) -> V3 {
    V3 { x: -a.x, y: -a.y, z: -a.z }
}

/// Fixed-point scaling of a vector by a raw scalar.
pub open spec fn vscalefx(s: int, a: V3) -> V3 {
    V3 { x: mulfx(s, a.x), y: mulfx(s, a.y), z: mulfx(s, a.z) }
}

/// Fixed-point dot product.
pub open spec fn vdotfx(a: V3, b: V3) -> int {
    divt(a.x * b.x + a.y * b.y + a.z * b.z, FX_ONE as int)
}

/// Fixed-point cross product.
pub open spec fn vcrossfx(a: V3, b: V3) -> V3 {
    V3 {
        x: divt(a.y * b.z - a.z * b.y, FX_ONE as int),
        y: divt(a.z * b.x - a.x * b.z, FX_ONE as int),
        z: divt(a.x * b.y - a.y * b.x, FX_ONE as int),
    }
}

/// Sum of the squared raw components (`FX_ONE`-squared times the squared length).
pub open spec fn vnormsq(a: V3) -> int {
    a.x * a.x + a.y * a.y + a.z * a.z
}

/// Fixed-point Euclidean magnitude: the integer square root of the raw
/// squared norm is again a raw fixed-point length.
pub open spec fn vmagfx(a: V3) -> int {
    sqrt_rec(vnormsq(a))
}

/// Saturation of each component to the stored coordinate bound.
pub open spec fn vsat(a: V3) -> V3 {
    V3 { x: sat(a.x), y: sat(a.y), z: sat(a.z) }
}

impl Vec3 {
    pub fn new(x: i64, y: i64, z: i64) -> (r: Vec3)
        ensures
            r@ == (V3 { x: x as int, y: y as int, z: z as int }),
    {
        Vec3 { x, y, z }
    }

    /// The zero vector.
    pub fn zero() -> (r: Vec3)
        ensures
            r@ == (V3 { x: 0int, y: 0int, z: 0int }),
    {
        Vec3 { x: 0, y: 0, z: 0 }
    }

    /// Widen the stored form to the working form.
    pub fn wide(&self) -> (r: T3)
        ensures
            r@ == self@,
    {
        T3 { x: self.x as i128, y: self.y as i128, z: self.z as i128 }
    }
}

/// Exact difference of two wide vectors.
pub fn t_sub(a: &T3, b: &T3) -> (r: T3)
    requires
        vbounded(a@, 0x1_0000_0000_0000_0000_0000_0000),
        vbounded(b@, 0x1_0000_0000_0000_0000_0000_0000),
    ensures
        r@ == vsub(a@, b@),
{
    T3 { x: a.x - b.x, y: a.y - b.y, z: a.z - b.z }
}

/// Fixed-point dot product of two wide vectors.
pub fn t_dot_fx(a: &T3, b: &T3) -> (r: i128)
    requires
        (vbounded(a@, 2_000_000_000_000_000_000) && vbounded(b@, 2_000_000_000_000_000_000)) || (
        vbounded(a@, 10_000_000_000_000_000_000) && vbounded(b@, 10_000_000_000_000)),
    ensures
        r == vdotfx(a@, b@),
        -12_000_000_000_000_000_000_000_000_000_000 <= r <= 12_000_000_000_000_000_000_000_000_000_000,
{
    let px = mul_i(a.x, b.x);
    let py = mul_i(a.y, b.y);
    let pz = mul_i(a.z, b.z);
    proof {
        if vbounded(a@, 2_000_000_000_000_000_000) && vbounded(b@, 2_000_000_000_000_000_000) {
            lemma_mul_bound(a.x as int, b.x as int, 2_000_000_000_000_000_000, 2_000_000_000_000_000_000);
            lemma_mul_bound(a.y as int, b.y as int, 2_000_000_000_000_000_000, 2_000_000_000_000_000_000);
            lemma_mul_bound(a.z as int, b.z as int, 2_000_000_000_000_000_000, 2_000_000_000_000_000_000);
        } else {
            lemma_mul_bound(a.x as int, b.x as int, 10_000_000_000_000_000_000, 10_000_000_000_000);
            lemma_mul_bound(a.y as int, b.y as int, 10_000_000_000_000_000_000, 10_000_000_000_000);
            lemma_mul_bound(a.z as int, b.z as int, 10_000_000_000_000_000_000, 10_000_000_000_000);
        }
        lemma_divt_bound(
            px + py + pz,
            FX_ONE as int,
            12_000_000_000_000_000_000_000_000_000_000,
        );
    }
    div_t(px + py + pz, FX_ONE)
}

/// Fixed-point cross product of two wide vectors.
pub fn t_cross_fx(a: &T3, b: &T3) -> (r: T3)
    requires
        vbounded(a@, 2_200_000_000_000),
        vbounded(b@, 2_200_000_000_000),
    ensures
        r@ == vcrossfx(a@, b@),
        vbounded(r@, 10_000_000_000_000_000_000),
{
    proof {
        lemma_mul_bound(a.y as int, b.z as int, 2_200_000_000_000, 2_200_000_000_000);
        lemma_mul_bound(a.z as int, b.y as int, 2_200_000_000_000, 2_200_000_000_000);
        lemma_mul_bound(a.z as int, b.x as int, 2_200_000_000_000, 2_200_000_000_000);
        lemma_mul_bound(a.x as int, b.z as int, 2_200_000_000_000, 2_200_000_000_000);
        lemma_mul_bound(a.x as int, b.y as int, 2_200_000_000_000, 2_200_000_000_000);
        lemma_mul_bound(a.y as int, b.x as int, 2_200_000_000_000, 2_200_000_000_000);
        lemma_divt_bound(
            a.y as int * b.z as int - a.z as int * b.y as int,
            FX_ONE as int,
            10_000_000_000_000_000_000,
        );
        lemma_divt_bound(
            a.z as int * b.x as int - a.x as int * b.z as int,
            FX_ONE as int,
            10_000_000_000_000_000_000,
        );
        lemma_divt_bound(
            a.x as int * b.y as int - a.y as int * b.x as int,
            FX_ONE as int,
            10_000_000_000_000_000_000,
        );
    }
    let rx = div_t(mul_i(a.y, b.z) - mul_i(a.z, b.y), FX_ONE);
    let ry = div_t(mul_i(a.z, b.x) - mul_i(a.x, b.z), FX_ONE);
    let rz = div_t(mul_i(a.x, b.y) - mul_i(a.y, b.x), FX_ONE);
    T3 { x: rx, y: ry, z: rz }
}

/// Fixed-point scaling of a wide vector by a raw scalar.
pub fn t_scale_fx(s: i128, a: &T3) -> (r: T3)
    requires
        -10_000_000_000_000_000_000 <= s <= 10_000_000_000_000_000_000,
        vbounded(a@, 10_000_000_000_000_000_000),
    ensures
        r@ == vscalefx(s as int, a@),
        vbounded(r@, 100_000_000_000_000_000_000_000_000_000_000),
{
    proof {
        lemma_mul_bound(s as int, a.x as int, 10_000_000_000_000_000_000, 10_000_000_000_000_000_000);
        lemma_mul_bound(s as int, a.y as int, 10_000_000_000_000_000_000, 10_000_000_000_000_000_000);
        lemma_mul_bound(s as int, a.z as int, 10_000_000_000_000_000_000, 10_000_000_000_000_000_000);
        lemma_divt_bound(
            s as int * a.x as int,
            FX_ONE as int,
            100_000_000_000_000_000_000_000_000_000_000,
        );
        lemma_divt_bound(
            s as int * a.y as int,
            FX_ONE as int,
            100_000_000_000_000_000_000_000_000_000_000,
        );
        lemma_divt_bound(
            s as int * a.z as int,
            FX_ONE as int,
            100_000_000_000_000_000_000_000_000_000_000,
        );
    }
    T3 {
        x: div_t(mul_i(s, a.x), FX_ONE),
        y: div_t(mul_i(s, a.y), FX_ONE),
        z: div_t(mul_i(s, a.z), FX_ONE),
    }
}

/// Fixed-point magnitude of a wide vector.
pub fn t_mag_fx(a: &T3) -> (r: i128)
    requires
        vbounded(a@, 3_000_000_000_000),
    ensures
        r == vmagfx(a@),
        0 <= r <= 6_000_000_000_000,
{
    proof {
        lemma_mul_bound(a.x as int, a.x as int, 3_000_000_000_000, 3_000_000_000_000);
        lemma_mul_bound(a.y as int, a.y as int, 3_000_000_000_000, 3_000_000_000_000);
        lemma_mul_bound(a.z as int, a.z as int, 3_000_000_000_000, 3_000_000_000_000);
        assert(a.x as int * a.x as int >= 0) by (nonlinear_arith);
        assert(a.y as int * a.y as int >= 0) by (nonlinear_arith);
        assert(a.z as int * a.z as int >= 0) by (nonlinear_arith);
    }
    let nsq = mul_i(a.x, a.x) + mul_i(a.y, a.y) + mul_i(a.z, a.z);
    let r = isqrt_i(nsq);
    proof {
        assert(r <= 6_000_000_000_000) by (nonlinear_arith)
            requires
                0 <= r,
                r * r <= nsq,
                nsq <= 27_000_000_000_000_000_000_000_000,
        ;
    }
    r
}

/// Saturating application of a wide displacement to a stored vector.
pub fn apply_delta(p: &Vec3, d: &T3) -> (r: Vec3)
    requires
        vbounded(d@, 1_000_000_000_000_000_000_000_000_000_000_000_000),
    ensures
        r@ == vsat(vadd(p@, d@)),
{
    Vec3 {
        x: sat_i(p.x as i128 + d.x),
        y: sat_i(p.y as i128 + d.y),
        z: sat_i(p.z as i128 + d.z),
    }
}

} // verus!

verus! {

/// The mathematical view of a stored vector sequence.
pub open spec fn views(s: Seq<Vec3>) -> Seq<V3> {
    Seq::new(s.len(), |i: int| s[i]@)
}

/// Componentwise bound over a whole model sequence.
pub open spec fn all_bounded(s: Seq<V3>, m: int) -> bool {
    forall|i: int| 0 <= i < s.len() ==> vbounded(#[trigger] s[i], m)
}

/// Viewing commutes with a pointwise update.
pub proof fn lemma_views_update(s: Seq<Vec3>, i: int, v: Vec3)
    requires
        0 <= i < s.len(),
    ensures
        views(s.update(i, v)) == views(s).update(i, v@),
{
    assert(views(s.update(i, v)) =~= views(s).update(i, v@));
}

/// Componentwise truncating division of a wide vector by a positive divisor.
pub open spec fn vdivt(a: V3, k: int) -> V3 {
    V3 { x: divt(a.x, k), y: divt(a.y, k), z: divt(a.z, k) }
}

/// Exec form of `vdivt`; division never grows a magnitude.
pub fn t_div(a: &T3, k: i128) -> (r: T3)
    requires
        k >= 1,
    ensures
        r@ == vdivt(a@, k as int),
        a.x >= 0 ==> 0 <= r.x <= a.x,
        a.x < 0 ==> a.x <= r.x <= 0,
        a.y >= 0 ==> 0 <= r.y <= a.y,
        a.y < 0 ==> a.y <= r.y <= 0,
        a.z >= 0 ==> 0 <= r.z <= a.z,
        a.z < 0 ==> a.z <= r.z <= 0,
{
    T3 { x: div_t(a.x, k), y: div_t(a.y, k), z: div_t(a.z, k) }
}

} // verus!
