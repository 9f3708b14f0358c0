//! Draw-depth (z-order) computation. The render depth of an object is its
//! base offset minus a hundredth of its world y, so objects lower on screen
//! draw on top of objects higher up within the same layer band.
//!
//! The depth must be recomputed when an object is first placed, for every
//! static tile after the grid rotates, and continuously for dynamic objects
//! as they move; static geometry's depth only changes when the grid itself
//! changes orientation.

use vstd::prelude::*;

use crate::rat::{div_ok, q_div, q_int, q_sub, sub_ok, Q, Rat};
use crate::vec3::RVec3;

verus! {

/// Offset for layering dynamic objects and static tiles; conventionally the
/// layer index times one hundred, assigned at placement time.
#[derive(Clone, Copy, Debug)]
pub struct ZOffset(pub Rat);

/// The render depth: `z_offset - world_y / 100`.
pub open spec fn spec_z_order(z_offset: Q, world_y: Q) -> Q {
    q_sub(z_offset, q_div(world_y, q_int(100)))
}

/// The products of the depth computation stay inside `i128`.
pub open spec fn z_order_ok(z_offset: Q, world_y: Q) -> bool {
    div_ok(world_y, q_int(100)) && sub_ok(z_offset, q_div(world_y, q_int(100)))
}

/// Render depth of an object from its world position and its base offset.
pub fn calculate_z_order(orthogonal_position: RVec3, z_offset: &ZOffset) -> (r: Rat)
    requires
        orthogonal_position.valid(),
        z_offset.0.valid(),
        z_order_ok(z_offset.0.q(), orthogonal_position.q().y),
    ensures
        r.valid(),
        r.q() == spec_z_order(z_offset.0.q(), orthogonal_position.q().y),
{
    z_offset.0.sub(orthogonal_position.y.div(Rat::from_int(100)))
}

/// Recomputes the depth of every tracked object in one pass, writing it into
/// the depth component of each translation. One such pass runs over all
/// static tiles after a grid rotation, and over all dynamic objects every
/// cycle.
pub fn update_z_orders(objects: &mut Vec<(RVec3, ZOffset)>)
    requires
        forall|i: int|
            0 <= i < old(objects)@.len() ==> {
                &&& (#[trigger] old(objects)@[i]).0.valid()
                &&& old(objects)@[i].1.0.valid()
                &&& z_order_ok(old(objects)@[i].1.0.q(), old(objects)@[i].0.q().y)
            },
    ensures
        final(objects)@.len() == old(objects)@.len(),
        forall|i: int|
            0 <= i < final(objects)@.len() ==> {
                &&& (#[trigger] final(objects)@[i]).0.x == old(objects)@[i].0.x
                &&& final(objects)@[i].0.y == old(objects)@[i].0.y
                &&& final(objects)@[i].0.z.valid()
                &&& final(objects)@[i].0.z.q() == spec_z_order(
                    old(objects)@[i].1.0.q(),
                    old(objects)@[i].0.q().y,
                )
                &&& final(objects)@[i].1 == old(objects)@[i].1
            },
{
    let mut idx: usize = 0;
    while idx < objects.len()
        invariant
            objects@.len() == old(objects)@.len(),
            idx <= objects@.len(),
            forall|i: int|
                idx <= i < objects@.len() ==> #[trigger] objects@[i] == old(objects)@[i],
            forall|i: int|
                0 <= i < old(objects)@.len() ==> {
                    &&& (#[trigger] old(objects)@[i]).0.valid()
                    &&& old(objects)@[i].1.0.valid()
                    &&& z_order_ok(old(objects)@[i].1.0.q(), old(objects)@[i].0.q().y)
                },
            forall|i: int|
                0 <= i < idx ==> {
                    &&& (#[trigger] objects@[i]).0.x == old(objects)@[i].0.x
                    &&& objects@[i].0.y == old(objects)@[i].0.y
                    &&& objects@[i].0.z.valid()
                    &&& objects@[i].0.z.q() == spec_z_order(
                        old(objects)@[i].1.0.q(),
                        old(objects)@[i].0.q().y,
                    )
                    &&& objects@[i].1 == old(objects)@[i].1
                },
        decreases objects@.len() - idx,
    {
        let (translation, offset) = objects[idx];
        let depth = calculate_z_order(translation, &offset);
        let updated = RVec3 { x: translation.x, y: translation.y, z: depth };
        objects.set(idx, (updated, offset));
        idx = idx + 1;
    }
}

} // verus!
