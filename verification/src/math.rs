//! Plane vectors and the friction rule.

use vstd::prelude::*;
use crate::fixed::{magnitude, sat_mul, saturate, scaled_product, SCALE};

verus! {

/// A point or an extent of the plane, each coordinate in thousandths.
#[derive(Clone, Copy, Debug, Default, PartialEq, Eq, Structural)]
pub struct Vec2 {
    pub x: i64,
    pub y: i64,
}

/// A vector of the plane with whole coordinates of any size: what a `Vec2`
/// stands for.
pub struct Vector {
    pub x: int,
    pub y: int,
}

impl View for Vec2 {
    type V = Vector;

    open spec fn view(&self) -> Vector {
        Vector { x: self.x as int, y: self.y as int }
    }
}

impl DeepView for Vec2 {
    type V = Vector;

    open spec fn deep_view(&self) -> Vector {
        self@
    }
}

impl Vec2 {
    /// The vector with the given coordinates, in thousandths.
    pub fn new(x: i64, y: i64) -> (v: Vec2)
        ensures
            v@ == (Vector { x: x as int, y: y as int }),
    {
        Vec2 { x, y }
    }

    /// The vector whose coordinates are `x` and `y` whole units.
    pub fn from_units(x: i32, y: i32) -> (v: Vec2)
        ensures
            v@ == (Vector { x: x * SCALE, y: y * SCALE }),
    {
        Vec2 { x: (x as i64) * SCALE, y: (y as i64) * SCALE }
    }

    /// The vector without length.
    pub fn zero() -> (v: Vec2)
        ensures
            v@ == (Vector { x: 0, y: 0 }),
    {
        Vec2 { x: 0, y: 0 }
    }
}

/// What is left of a speed `v` after one tick of friction with ratio `p`: the
/// product, or nothing once the product is smaller than the threshold `b`.
pub open spec fn reduced(v: int, p: int, b: int) -> int {
    let vp = saturate(scaled_product(v, p));
    if magnitude(vp) < b {
        0
    } else {
        vp
    }
}

/// A product that is kept has the sign of `v * p`; a speed of zero stays zero
/// under every positive threshold.
pub proof fn lemma_reduced_sign(v: int, p: int, b: int)
    ensures
        reduced(v, p, b) > 0 ==> v * p > 0,
        reduced(v, p, b) < 0 ==> v * p < 0,
        v == 0 && b > 0 ==> reduced(v, p, b) == 0,
{
    let m = v * p;
    assert(v == 0 ==> m == 0) by (nonlinear_arith)
        requires
            m == v * p,
    ;
    if m >= 0 {
        assert(m / 1000 >= 0);
        assert(m == 0 ==> m / 1000 == 0);
    } else {
        assert((-m) / 1000 >= 0);
    }
}

/// Applies friction to a speed: `v * p`, snapped to zero when it is smaller in
/// magnitude than `b`.
pub fn reduction(v: i64, p: i64, b: i64) -> (r: i64)
    ensures
        r == reduced(v as int, p as int, b as int),
        r > 0 ==> v * p > 0,
        r < 0 ==> v * p < 0,
        v == 0 && b > 0 ==> r == 0,
{
    proof {
        lemma_reduced_sign(v as int, p as int, b as int);
    }
    let vp: i64 = sat_mul(v, p);
    let size: i128 = if vp < 0 {
        -(vp as i128)
    } else {
        vp as i128
    };
    if size < b as i128 {
        0
    } else {
        vp
    }
}

} // verus!
