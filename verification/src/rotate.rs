//! Quarter-turn rotation of the whole grid. On a rotation event every
//! tracked object's grid position turns within the square grid extent, its
//! world translation is recomputed through the isometric projection with the
//! grid's shared tile size and world-scale multiplier, and a per-object
//! world-space offset, if any, is added back on. Rotation is atomic per
//! event: the whole tracked set is updated before the next event, and the
//! z-order pass runs only after the rotation pass is complete.

use vstd::prelude::*;

use crate::grid::{spec_rotate_c, spec_rotate_cc, GridOffset, GridPosition, TileSize};
use crate::math::{g2w_x, g2w_y, grid_to_world, lemma_g2w_ok_cells};
use crate::rat::{lemma_abs_mul_le, q_add, q_int, q_mul, q_small, Q};
use crate::vec3::{QV3, RVec3};
use crate::WorldScale;

verus! {

/// A request to rotate the whole grid by a quarter turn.
#[derive(Clone, Copy, Debug)]
pub enum GridRotationEvent {
    Clockwise,
    CounterClockwise,
}

/// The grid position an object reaches when the event is applied within a
/// grid of side `n`.
pub open spec fn spec_rotated(
    event: GridRotationEvent,
    p: GridPosition,
    n: usize,
) -> GridPosition {
    match event {
        GridRotationEvent::Clockwise => spec_rotate_c(p, n),
        GridRotationEvent::CounterClockwise => spec_rotate_cc(p, n),
    }
}

/// A grid position as the rational grid-space vector the projection takes.
pub open spec fn grid_q(p: GridPosition) -> QV3 {
    QV3 { x: q_int(p.x as int), y: q_int(p.y as int), z: q_int(p.layer as int) }
}

/// World x of a rotated object: the projection of its new cell under the
/// scaled tile width, plus its own world-space offset.
pub open spec fn spec_translation_x(p: GridPosition, tw_scaled: Q, off_x: Q) -> Q {
    q_add(g2w_x(grid_q(p), tw_scaled), off_x)
}

/// World y of a rotated object: the projection of its new cell under the
/// scaled tile height, plus its own world-space offset.
pub open spec fn spec_translation_y(p: GridPosition, th_scaled: Q, off_y: Q) -> Q {
    q_add(g2w_y(grid_q(p), th_scaled), off_y)
}

/// Bounds on one object's inputs under which the rotation step is free of
/// overflow: position within a grid of side at most a million, layer at most
/// a million, and tile size, scale and offset rationals bounded by a million.
pub open spec fn rotate_ok(
    p: GridPosition,
    n: usize,
    tilesize: TileSize,
    scale: WorldScale,
    offset: GridOffset,
) -> bool {
    &&& p.x < n
    &&& p.y < n
    &&& n <= 1_000_000
    &&& p.layer <= 1_000_000
    &&& tilesize.width.valid()
    &&& tilesize.height.valid()
    &&& q_small(tilesize.width.q(), 1_000_000)
    &&& q_small(tilesize.height.q(), 1_000_000)
    &&& scale.0.valid()
    &&& q_small(scale.0.q(), 1_000_000)
    &&& offset.x.valid()
    &&& offset.y.valid()
    &&& q_small(offset.x.q(), 1_000_000)
    &&& q_small(offset.y.q(), 1_000_000)
}

/// Applies one rotation event to one object: returns its new grid position
/// and new world translation. The depth component carries the (unchanged)
/// layer, to be refreshed by the z-order pass that follows the rotation.
pub fn rotate(
    rotation_event: &GridRotationEvent,
    old_grid_position: GridPosition,
    n: usize,
    tilesize: &TileSize,
    scale: &WorldScale,
    offset: &GridOffset,
) -> (r: (GridPosition, RVec3))
    requires
        rotate_ok(old_grid_position, n, *tilesize, *scale, *offset),
    ensures
        r.0 == spec_rotated(*rotation_event, old_grid_position, n),
        r.1.valid(),
        r.1.q().x == spec_translation_x(
            r.0,
            q_mul(tilesize.width.q(), scale.0.q()),
            offset.x.q(),
        ),
        r.1.q().y == spec_translation_y(
            r.0,
            q_mul(tilesize.height.q(), scale.0.q()),
            offset.y.q(),
        ),
        r.1.q().z == q_int(r.0.layer as int),
{
    let new_grid_position = match rotation_event {
        GridRotationEvent::Clockwise => old_grid_position.rotate_c(n),
        GridRotationEvent::CounterClockwise => old_grid_position.rotate_cc(n),
    };

    proof {
        let b6: int = 1_000_000;
        let b12: int = 1_000_000_000_000;
        lemma_abs_mul_le(tilesize.width.q().n, scale.0.q().n, b6, b6);
        lemma_abs_mul_le(tilesize.width.q().d, scale.0.q().d, b6, b6);
        lemma_abs_mul_le(tilesize.height.q().n, scale.0.q().n, b6, b6);
        lemma_abs_mul_le(tilesize.height.q().d, scale.0.q().d, b6, b6);
        crate::rat::lemma_pos_mul(tilesize.width.q().d, scale.0.q().d);
        crate::rat::lemma_pos_mul(tilesize.height.q().d, scale.0.q().d);
        lemma_g2w_ok_cells(
            grid_q(new_grid_position),
            q_mul(tilesize.width.q(), scale.0.q()),
            q_mul(tilesize.height.q(), scale.0.q()),
        );
    }
    let scaled_width = tilesize.width().mul(scale.0);
    let scaled_height = tilesize.height().mul(scale.0);
    let world_pos = grid_to_world(new_grid_position.to_rvec3(), scaled_width, scaled_height);

    proof {
        let gq = grid_q(new_grid_position);
        let twq = q_mul(tilesize.width.q(), scale.0.q());
        let thq = q_mul(tilesize.height.q(), scale.0.q());
        let b6: int = 1_000_000;
        let bx: int = 2_000_000_000_000_000_000;
        let by: int = 4_000_000_000_000_000_000_000_000_000_000;
        lemma_abs_mul_le(g2w_x(gq, twq).n, offset.x.q().d, bx, b6);
        lemma_abs_mul_le(offset.x.q().n, g2w_x(gq, twq).d, b6, bx);
        lemma_abs_mul_le(g2w_x(gq, twq).d, offset.x.q().d, bx, b6);
        lemma_abs_mul_le(g2w_y(gq, thq).n, offset.y.q().d, by, b6);
        lemma_abs_mul_le(offset.y.q().n, g2w_y(gq, thq).d, b6, by);
        lemma_abs_mul_le(g2w_y(gq, thq).d, offset.y.q().d, by, b6);
    }
    let world_x = world_pos.x.add(offset.x);
    let world_y = world_pos.y.add(offset.y);

    (new_grid_position, RVec3 { x: world_x, y: world_y, z: world_pos.z })
}

/// One object tracked by the grid: its cell, its world translation, and its
/// world-space offset (zero for objects centered on their cell, as every
/// static tile is).
#[derive(Clone, Copy, Debug)]
pub struct PlacedObject {
    pub grid_position: GridPosition,
    pub translation: RVec3,
    pub offset: GridOffset,
}

/// Applies one rotation event to every tracked object, as a single batch:
/// each object's new position and translation depend only on its own old
/// position, so the pass is one consistent snapshot of the grid.
pub fn rotate_grid(
    rotation_event: &GridRotationEvent,
    objects: &mut Vec<PlacedObject>,
    n: usize,
    tilesize: &TileSize,
    scale: &WorldScale,
)
    requires
        forall|i: int|
            0 <= i < old(objects)@.len() ==> rotate_ok(
                (#[trigger] old(objects)@[i]).grid_position,
                n,
                *tilesize,
                *scale,
                old(objects)@[i].offset,
            ),
    ensures
        final(objects)@.len() == old(objects)@.len(),
        forall|i: int|
            0 <= i < final(objects)@.len() ==> {
                &&& (#[trigger] final(objects)@[i]).grid_position == spec_rotated(
                    *rotation_event,
                    old(objects)@[i].grid_position,
                    n,
                )
                &&& final(objects)@[i].translation.valid()
                &&& final(objects)@[i].translation.q().x == spec_translation_x(
                    final(objects)@[i].grid_position,
                    q_mul(tilesize.width.q(), scale.0.q()),
                    old(objects)@[i].offset.x.q(),
                )
                &&& final(objects)@[i].translation.q().y == spec_translation_y(
                    final(objects)@[i].grid_position,
                    q_mul(tilesize.height.q(), scale.0.q()),
                    old(objects)@[i].offset.y.q(),
                )
                &&& final(objects)@[i].translation.q().z == q_int(
                    final(objects)@[i].grid_position.layer as int,
                )
                &&& final(objects)@[i].offset == old(objects)@[i].offset
            },
{
    let mut idx: usize = 0;
    while idx < objects.len()
        invariant
            objects@.len() == old(objects)@.len(),
            idx <= objects@.len(),
            forall|i: int|
                idx <= i < objects@.len() ==> #[trigger] objects@[i] == old(objects)@[i],
            forall|i: int|
                0 <= i < old(objects)@.len() ==> rotate_ok(
                    (#[trigger] old(objects)@[i]).grid_position,
                    n,
                    *tilesize,
                    *scale,
                    old(objects)@[i].offset,
                ),
            forall|i: int|
                0 <= i < idx ==> {
                    &&& (#[trigger] objects@[i]).grid_position == spec_rotated(
                        *rotation_event,
                        old(objects)@[i].grid_position,
                        n,
                    )
                    &&& objects@[i].translation.valid()
                    &&& objects@[i].translation.q().x == spec_translation_x(
                        objects@[i].grid_position,
                        q_mul(tilesize.width.q(), scale.0.q()),
                        old(objects)@[i].offset.x.q(),
                    )
                    &&& objects@[i].translation.q().y == spec_translation_y(
                        objects@[i].grid_position,
                        q_mul(tilesize.height.q(), scale.0.q()),
                        old(objects)@[i].offset.y.q(),
                    )
                    &&& objects@[i].translation.q().z == q_int(
                        objects@[i].grid_position.layer as int,
                    )
                    &&& objects@[i].offset == old(objects)@[i].offset
                },
        decreases objects@.len() - idx,
    {
        let object = objects[idx];
        let (new_position, new_translation) = rotate(
            rotation_event,
            object.grid_position,
            n,
            tilesize,
            scale,
            &object.offset,
        );
        objects.set(
            idx,
            PlacedObject {
                grid_position: new_position,
                translation: new_translation,
                offset: object.offset,
            },
        );
        idx = idx + 1;
    }
}

} // verus!
