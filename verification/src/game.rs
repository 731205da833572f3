//! The parts of a body and the overlap test for rectangles.

use vstd::prelude::*;
use crate::fixed::{magnitude, ONE};
use crate::math::{Vec2, Vector};

verus! {

/// Velocity, in thousandths of a unit per tick.
#[derive(Clone, Copy, Debug, Default, PartialEq, Eq, Structural)]
pub struct Speed(pub Vec2);

/// Acceleration asked for since the last tick.
#[derive(Clone, Copy, Debug, Default, PartialEq, Eq, Structural)]
pub struct Acceleration(pub Vec2);

/// Ticks for which gravity stays switched off.
#[derive(Clone, Copy, Debug, Default, PartialEq, Eq, Structural)]
pub struct GravityCounter(pub u32);

/// Full width and height of a rectangle.
#[derive(Clone, Copy, Debug, Default, PartialEq, Eq, Structural)]
pub struct Size(pub Vec2);

/// The sides on which the body touched an obstacle during the current tick,
/// at the positions `FLOOR`, `CEILING`, `LEFT` and `RIGHT`.
#[derive(Clone, Copy, Debug, Default, PartialEq, Eq)]
pub struct CollisionSides(pub [bool; 4]);

/// While set, a jump cannot start.
#[derive(Clone, Copy, Debug, Default, PartialEq, Eq, Structural)]
pub struct JumpLock(pub bool);

/// The contacts of a body by name: what `CollisionSides` stands for.
pub struct Contacts {
    pub floor: bool,
    pub ceiling: bool,
    pub left: bool,
    pub right: bool,
}

impl View for Speed {
    type V = Vector;

    open spec fn view(&self) -> Vector {
        self.0@
    }
}

impl View for Acceleration {
    type V = Vector;

    open spec fn view(&self) -> Vector {
        self.0@
    }
}

impl View for Size {
    type V = Vector;

    open spec fn view(&self) -> Vector {
        self.0@
    }
}

impl View for GravityCounter {
    type V = nat;

    open spec fn view(&self) -> nat {
        self.0 as nat
    }
}

impl View for JumpLock {
    type V = bool;

    open spec fn view(&self) -> bool {
        self.0
    }
}

impl View for CollisionSides {
    type V = Contacts;

    open spec fn view(&self) -> Contacts {
        Contacts {
            floor: self.0[FLOOR as int],
            ceiling: self.0[CEILING as int],
            left: self.0[LEFT as int],
            right: self.0[RIGHT as int],
        }
    }
}

/// Position in `CollisionSides` of the contact below the body.
pub const FLOOR: usize = 0;

/// Position in `CollisionSides` of the contact above the body.
pub const CEILING: usize = 1;

/// Position in `CollisionSides` of the contact on the body's left.
pub const LEFT: usize = 2;

/// Position in `CollisionSides` of the contact on the body's right.
pub const RIGHT: usize = 3;

/// Whether two spans of a line touch, each given by its centre and its full
/// extent, with one unit of tolerance at either end.
///
/// Stated over doubled coordinates, in which half an extent is whole:
/// `2 * p - s` is twice the low end of a span.
pub open spec fn spans_touch(p1: int, s1: int, p2: int, s2: int) -> bool {
    let low1 = 2 * p1 - s1;
    let low2 = 2 * p2 - s2;
    ||| (low2 - 2 * ONE <= low1 && low1 <= low2 + 2 * s2 + 2 * ONE)
    ||| (low1 - 2 * ONE <= low2 && low2 <= low1 + 2 * s1 + 2 * ONE)
}

/// Whether two rectangles overlap, each given by its centre and its size.
pub open spec fn overlaps(p1: Vector, s1: Vector, p2: Vector, s2: Vector) -> bool {
    &&& spans_touch(p1.x, s1.x, p2.x, s2.x)
    &&& spans_touch(p1.y, s1.y, p2.y, s2.y)
}

/// Twice the free room between two spans; negative while they share points.
pub open spec fn doubled_gap(p1: int, s1: int, p2: int, s2: int) -> int {
    2 * magnitude(p1 - p2) - (s1 + s2)
}

/// Rectangles of non-negative size overlap exactly when the room between
/// them is at most one unit along both axes.
pub proof fn lemma_overlap_is_small_gap(p1: Vector, s1: Vector, p2: Vector, s2: Vector)
    requires
        s1.x >= 0 && s1.y >= 0 && s2.x >= 0 && s2.y >= 0,
    ensures
        overlaps(p1, s1, p2, s2) <==> doubled_gap(p1.x, s1.x, p2.x, s2.x) <= 2 * ONE
            && doubled_gap(p1.y, s1.y, p2.y, s2.y) <= 2 * ONE,
{
}

/// Whether two rectangles overlap does not depend on which is named first.
pub proof fn lemma_overlap_is_symmetric(p1: Vector, s1: Vector, p2: Vector, s2: Vector)
    ensures
        overlaps(p1, s1, p2, s2) == overlaps(p2, s2, p1, s1),
{
}

/// Rectangles of non-negative size that lie more than one unit apart along
/// an axis do not overlap.
pub proof fn lemma_apart_means_no_overlap(p1: Vector, s1: Vector, p2: Vector, s2: Vector)
    requires
        s1.x >= 0 && s1.y >= 0 && s2.x >= 0 && s2.y >= 0,
        doubled_gap(p1.x, s1.x, p2.x, s2.x) > 2 * ONE || doubled_gap(p1.y, s1.y, p2.y, s2.y) > 2
            * ONE,
    ensures
        !overlaps(p1, s1, p2, s2),
{
}

/// Rectangles whose centres are no further apart along each axis than half
/// the sum of their extents overlap.
pub proof fn lemma_near_means_overlap(p1: Vector, s1: Vector, p2: Vector, s2: Vector)
    requires
        doubled_gap(p1.x, s1.x, p2.x, s2.x) <= 0,
        doubled_gap(p1.y, s1.y, p2.y, s2.y) <= 0,
    ensures
        overlaps(p1, s1, p2, s2),
{
}

fn touch(p1: i64, s1: i64, p2: i64, s2: i64) -> (r: bool)
    ensures
        r == spans_touch(p1 as int, s1 as int, p2 as int, s2 as int),
{
    let low1: i128 = 2 * (p1 as i128) - (s1 as i128);
    let low2: i128 = 2 * (p2 as i128) - (s2 as i128);
    let slack: i128 = 2 * (ONE as i128);
    (low2 - slack <= low1 && low1 <= low2 + 2 * (s2 as i128) + slack)
        || (low1 - slack <= low2 && low2 <= low1 + 2 * (s1 as i128) + slack)
}

/// Tells whether the rectangle with centre `p1` and size `s1` overlaps the one
/// with centre `p2` and size `s2`.
pub fn collide(p1: Vec2, s1: Vec2, p2: Vec2, s2: Vec2) -> (r: bool)
    ensures
        r == overlaps(p1@, s1@, p2@, s2@),
{
    touch(p1.x, s1.x, p2.x, s2.x) && touch(p1.y, s1.y, p2.y, s2.y)
}

} // verus!
