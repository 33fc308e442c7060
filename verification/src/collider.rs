//! Axis-aligned bounding boxes and the overlap test used for collision
//! resolution.
//!
//! A box is a collider size anchored at its owner's effective translation.
//! Two boxes overlap when a corner (top-left or bottom-right) of the first
//! lies strictly inside the second: touching edges do not count. This cheap
//! corner-containment test is deliberately kept as the game plays it; it is
//! not symmetric in general (one box fully engulfing the other can go
//! undetected), see the lemmas below for what does hold.

use vstd::prelude::*;

use crate::math::{sadd, Transform, Vec2, Vec3};

verus! {

/// An axis-aligned collision box: its width and height in milli-cells. The
/// box is anchored at the owning entity's effective translation.
#[derive(Clone, Copy, PartialEq, Eq, Structural, Debug)]
pub struct Collider(pub Vec2);

impl Collider {
    pub fn new(width: i64, height: i64) -> (r: Collider)
        ensures
            r == (Collider(Vec2 { x: width, y: height })),
    {
        Collider(Vec2 { x: width, y: height })
    }
}

/// Whether point `(px, py)` lies strictly inside the box spanning
/// `(tlx, tly)` to `(brx, bry)` (open intervals: the boundary is outside).
pub open spec fn strictly_inside(px: int, py: int, tlx: int, tly: int, brx: int, bry: int) -> bool {
    &&& tlx < px < brx
    &&& tly < py < bry
}

/// The x coordinate of a box's bottom-right corner (saturating).
pub open spec fn br_x(c: Collider, t: Vec3) -> int {
    sadd(t.x as int, c.0.x as int)
}

/// The y coordinate of a box's bottom-right corner (saturating).
pub open spec fn br_y(c: Collider, t: Vec3) -> int {
    sadd(t.y as int, c.0.y as int)
}

/// The overlap test: whether the top-left or bottom-right corner of box 1
/// lies strictly inside box 2.
pub open spec fn collide_spec(c1: Collider, t1: Vec3, c2: Collider, t2: Vec3) -> bool {
    ||| strictly_inside(
        t1.x as int,
        t1.y as int,
        t2.x as int,
        t2.y as int,
        br_x(c2, t2),
        br_y(c2, t2),
    )
    ||| strictly_inside(
        br_x(c1, t1),
        br_y(c1, t1),
        t2.x as int,
        t2.y as int,
        br_x(c2, t2),
        br_y(c2, t2),
    )
}

/// Do the boxes of two (collider, effective transform) pairs overlap?
/// True iff a corner of the first box lies strictly inside the second.
pub fn collide(c1: (&Collider, &Transform), c2: (&Collider, &Transform)) -> (r: bool)
    ensures
        r == collide_spec(*c1.0, c1.1.translation, *c2.0, c2.1.translation),
{
    let top_left1 = c1.1.translation;
    let bottom_right1_x = crate::math::sat_add(c1.1.translation.x, c1.0.0.x);
    let bottom_right1_y = crate::math::sat_add(c1.1.translation.y, c1.0.0.y);

    let top_left2 = c2.1.translation;
    let bottom_right2_x = crate::math::sat_add(c2.1.translation.x, c2.0.0.x);
    let bottom_right2_y = crate::math::sat_add(c2.1.translation.y, c2.0.0.y);

    let top_left1_inside_2 = top_left1.x > top_left2.x && top_left1.x < bottom_right2_x
        && top_left1.y > top_left2.y && top_left1.y < bottom_right2_y;

    let bottom_right1_inside_2 = bottom_right1_x > top_left2.x && bottom_right1_x < bottom_right2_x
        && bottom_right1_y > top_left2.y && bottom_right1_y < bottom_right2_y;

    top_left1_inside_2 || bottom_right1_inside_2
}

/// Overlap symmetry on the mutual-corner case: when a corner of each box
/// lies strictly inside the other, the test reports the overlap from both
/// sides. (It is not symmetric in general: a box strictly engulfing another
/// puts no corner of either inside the other box in one of the directions.)
pub proof fn lemma_collide_symmetric(c1: Collider, t1: Vec3, c2: Collider, t2: Vec3)
    requires
        strictly_inside(
            t1.x as int,
            t1.y as int,
            t2.x as int,
            t2.y as int,
            br_x(c2, t2),
            br_y(c2, t2),
        ) || strictly_inside(
            br_x(c1, t1),
            br_y(c1, t1),
            t2.x as int,
            t2.y as int,
            br_x(c2, t2),
            br_y(c2, t2),
        ),
        strictly_inside(
            t2.x as int,
            t2.y as int,
            t1.x as int,
            t1.y as int,
            br_x(c1, t1),
            br_y(c1, t1),
        ) || strictly_inside(
            br_x(c2, t2),
            br_y(c2, t2),
            t1.x as int,
            t1.y as int,
            br_x(c1, t1),
            br_y(c1, t1),
        ),
    ensures
        collide_spec(c1, t1, c2, t2),
        collide_spec(c2, t2, c1, t1),
{
}

/// Disjoint or merely touching boxes collide in neither direction: if the
/// boxes are separated (or share a boundary) along some axis, both
/// `collide` orders return false.
pub proof fn lemma_collide_disjoint(c1: Collider, t1: Vec3, c2: Collider, t2: Vec3)
    requires
        c1.0.x >= 0,
        c1.0.y >= 0,
        c2.0.x >= 0,
        c2.0.y >= 0,
        br_x(c1, t1) <= t2.x as int || br_x(c2, t2) <= t1.x as int || br_y(c1, t1) <= t2.y as int
            || br_y(c2, t2) <= t1.y as int,
    ensures
        !collide_spec(c1, t1, c2, t2),
        !collide_spec(c2, t2, c1, t1),
{
}

} // verus!
