//! A point at which two shapes touch, or nearly touch.

use crate::math::dot;
use crate::math::lemma_mul_bound;
use crate::math::Vec3;
use crate::math::COORD_MAX;
use crate::math::UNIT;
use vstd::prelude::*;

verus! {

/// The gap between two points along a normal of the length of one unit,
/// rounded down: negative where the second point lies behind the first.
pub open spec fn separation(world1: Vec3, world2: Vec3, normal: Vec3) -> int {
    dot(normal, world2.sub_spec(world1)) / (UNIT as int)
}

/// Geometric description of a contact.
#[derive(Clone, Copy, Debug, PartialEq, Eq, Structural)]
pub struct Contact {
    /// Position of the contact on the first shape.
    pub world1: Vec3,
    /// Position of the contact on the second shape.
    pub world2: Vec3,
    /// Contact normal, of the length of one unit, pointing from the first
    /// shape towards the second.
    pub normal: Vec3,
    /// The signed separation of the two shapes along the normal: negative
    /// where they overlap, positive where they are apart.
    pub depth: i64,
}

impl Contact {
    /// Creates a new contact.
    pub fn new(world1: Vec3, world2: Vec3, normal: Vec3, depth: i64) -> (c: Contact)
        ensures
            c == (Contact { world1, world2, normal, depth }),
    {
        Contact { world1, world2, normal, depth }
    }

    /// Creates a new contact, computing its depth from the two contact
    /// points and the normal.
    pub fn new_wo_depth(world1: Vec3, world2: Vec3, normal: Vec3) -> (c: Contact)
        requires
            world1.within(2 * COORD_MAX),
            world2.within(2 * COORD_MAX),
            normal.within(UNIT as int),
        ensures
            c == (Contact {
                world1,
                world2,
                normal,
                depth: separation(world1, world2, normal) as i64,
            }),
            -0x1_0000_0000 <= c.depth <= 0x1_0000_0000,
            c.depth == separation(world1, world2, normal),
    {
        let diff: Vec3 = world2.sub(&world1);
        proof {
            lemma_mul_bound(normal.x as int, diff.x as int, UNIT as int, 4 * COORD_MAX);
            lemma_mul_bound(normal.y as int, diff.y as int, UNIT as int, 4 * COORD_MAX);
            lemma_mul_bound(normal.z as int, diff.z as int, UNIT as int, 4 * COORD_MAX);
        }
        let along: i64 = normal.dot(&diff);
        let shifted: i64 = along + 0x1000_0000_0000;
        let depth: i64 = shifted / UNIT - 0x1_0000_0000;
        Contact { world1, world2, normal, depth }
    }
}

} // verus!
