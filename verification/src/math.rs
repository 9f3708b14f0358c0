//! Coordinate math for the 2:1 isometric diamond projection: grid to world,
//! world to grid, quarter-turn vector rotation, and the point-in-tile test.
//!
//! All functions are pure and exact over rational coordinates. The spec
//! functions below are the projection formulas themselves; each executable
//! function returns exactly the rational its spec function denotes.

use vstd::prelude::*;

use crate::rat::{
    add_ok, cmp_ok, div_ok, half_ok, lemma_abs_mul_le, lemma_floor_between,
    lemma_pos_mul, mul_ok, q_add, q_div, q_eq, q_floor, q_half, q_int, q_max0, q_mul, q_pos,
    q_small, q_sub, sub_ok, Rat,
};
use crate::vec3::{QV3, RVec3};

verus! {

/// World x of the projection: `(grid.x - grid.y) * tile_width / 2`.
pub open spec fn g2w_x(g: QV3, tw: crate::rat::Q) -> crate::rat::Q {
    q_mul(q_sub(g.x, g.y), q_half(tw))
}

/// World y of the projection:
/// `(grid.x + grid.y) * tile_height / 2 + tile_height * max(0, grid.z - 1)`.
/// Layers 0 and 1 render at the same height bias; every layer above 1 is
/// lifted by a full tile height.
pub open spec fn g2w_y(g: QV3, th: crate::rat::Q) -> crate::rat::Q {
    q_add(q_mul(q_add(g.x, g.y), q_half(th)), q_mul(th, q_max0(q_sub(g.z, q_int(1)))))
}

/// All intermediate products of `grid_to_world` stay inside `i128`.
pub open spec fn g2w_ok(g: QV3, tw: crate::rat::Q, th: crate::rat::Q) -> bool {
    &&& half_ok(tw)
    &&& half_ok(th)
    &&& sub_ok(g.x, g.y)
    &&& mul_ok(q_sub(g.x, g.y), q_half(tw))
    &&& add_ok(g.x, g.y)
    &&& mul_ok(q_add(g.x, g.y), q_half(th))
    &&& sub_ok(g.z, q_int(1))
    &&& mul_ok(th, q_max0(q_sub(g.z, q_int(1))))
    &&& add_ok(q_mul(q_add(g.x, g.y), q_half(th)), q_mul(th, q_max0(q_sub(g.z, q_int(1)))))
}

/// Grid x of the inverse projection:
/// `(world.x / (tile_width / 2) + world.y / (tile_height / 2)) / 2`.
pub open spec fn w2g_x(w: QV3, tw: crate::rat::Q, th: crate::rat::Q) -> crate::rat::Q {
    q_half(q_add(q_div(w.x, q_half(tw)), q_div(w.y, q_half(th))))
}

/// Grid y of the inverse projection:
/// `(world.y / (tile_height / 2) - world.x / (tile_width / 2)) / 2`.
pub open spec fn w2g_y(w: QV3, tw: crate::rat::Q, th: crate::rat::Q) -> crate::rat::Q {
    q_half(q_sub(q_div(w.y, q_half(th)), q_div(w.x, q_half(tw))))
}

/// All intermediate products of `world_to_grid` stay inside `i128`.
pub open spec fn w2g_ok(w: QV3, tw: crate::rat::Q, th: crate::rat::Q) -> bool {
    &&& half_ok(tw)
    &&& half_ok(th)
    &&& div_ok(w.x, q_half(tw))
    &&& div_ok(w.y, q_half(th))
    &&& add_ok(q_div(w.x, q_half(tw)), q_div(w.y, q_half(th)))
    &&& half_ok(q_add(q_div(w.x, q_half(tw)), q_div(w.y, q_half(th))))
    &&& sub_ok(q_div(w.y, q_half(th)), q_div(w.x, q_half(tw)))
    &&& half_ok(q_sub(q_div(w.y, q_half(th)), q_div(w.x, q_half(tw))))
}

/// Standard 2:1 isometric diamond projection from grid space to world space.
/// The depth component passes the grid layer through unchanged; it seeds the
/// later z-order computation.
pub fn grid_to_world(grid_pos: RVec3, tile_width: Rat, tile_height: Rat) -> (r: RVec3)
    requires
        grid_pos.valid(),
        tile_width.valid(),
        tile_height.valid(),
        g2w_ok(grid_pos.q(), tile_width.q(), tile_height.q()),
    ensures
        r.valid(),
        r.q().x == g2w_x(grid_pos.q(), tile_width.q()),
        r.q().y == g2w_y(grid_pos.q(), tile_height.q()),
        r.q().z == grid_pos.q().z,
{
    let tile_width_half = tile_width.half();
    let tile_height_half = tile_height.half();

    let world_x = grid_pos.x.sub(grid_pos.y).mul(tile_width_half);
    let base_y = grid_pos.x.add(grid_pos.y).mul(tile_height_half);
    let lift = tile_height.mul(grid_pos.z.sub(Rat::from_int(1)).max0());

    RVec3 { x: world_x, y: base_y.add(lift), z: grid_pos.z }
}

/// Exact algebraic inverse of the x/y terms of the projection. It does not
/// invert the layer-height bias: the depth component passes through
/// unchanged, so round trips are exact only when comparing x/y, or for
/// layers 0 and 1.
pub fn world_to_grid(world_pos: RVec3, tile_width: Rat, tile_height: Rat) -> (r: RVec3)
    requires
        world_pos.valid(),
        tile_width.valid(),
        tile_height.valid(),
        q_pos(tile_width.q()),
        q_pos(tile_height.q()),
        w2g_ok(world_pos.q(), tile_width.q(), tile_height.q()),
    ensures
        r.valid(),
        r.q().x == w2g_x(world_pos.q(), tile_width.q(), tile_height.q()),
        r.q().y == w2g_y(world_pos.q(), tile_width.q(), tile_height.q()),
        r.q().z == world_pos.q().z,
{
    let tile_width_half = tile_width.half();
    let tile_height_half = tile_height.half();

    let wx = world_pos.x.div(tile_width_half);
    let wy = world_pos.y.div(tile_height_half);

    let grid_x = wx.add(wy).half();
    let grid_y = wy.sub(wx).half();

    RVec3 { x: grid_x, y: grid_y, z: world_pos.z }
}

/// A product re-associated: two doubled factors against two squared ones.
proof fn lemma_half_cancel(p: int, q: int, r: int)
    by (nonlinear_arith)
    ensures
        ((2 * (p * q)) * (r * q)) * r == p * (2 * ((r * q) * (r * q))),
        ((2 * (p * r)) * (r * q)) * q == p * (2 * ((r * q) * (r * q))),
{
}

/// Half of the sum of `a - b` and `a + b` is `a`; half of their difference
/// is `b`.
proof fn lemma_half_sum_diff(a: crate::rat::Q, b: crate::rat::Q)
    ensures
        q_eq(q_half(q_add(q_sub(a, b), q_add(a, b))), a),
        q_eq(q_half(q_sub(q_add(a, b), q_sub(a, b))), b),
{
    let s = q_sub(a, b);
    let t = q_add(a, b);
    let d = a.d * b.d;
    assert(s.n + t.n == 2 * (a.n * b.d));
    assert(t.n - s.n == 2 * (b.n * a.d));
    vstd::arithmetic::mul::lemma_mul_is_distributive_add_other_way(d, s.n, t.n);
    vstd::arithmetic::mul::lemma_mul_is_distributive_sub_other_way(d, t.n, s.n);
    assert(s.n * t.d + t.n * s.d == (2 * (a.n * b.d)) * d);
    assert(t.n * s.d - s.n * t.d == (2 * (b.n * a.d)) * d);
    lemma_half_cancel(a.n, b.d, a.d);
    lemma_half_cancel(b.n, b.d, a.d);
    assert(((2 * (a.n * b.d)) * (a.d * b.d)) * a.d == a.n * (2 * ((a.d * b.d) * (a.d * b.d))));
    assert(((2 * (b.n * a.d)) * (a.d * b.d)) * b.d == b.n * (2 * ((a.d * b.d) * (a.d * b.d))));
}

/// Taking a grid point to world space and back returns it exactly, in x and
/// y, whenever its layer is at most 1 — those layers carry no height bias.
/// The depth component is a passthrough in both directions, so it returns
/// unchanged for every layer.
pub proof fn lemma_world_to_grid_inverts(g: QV3, tw: crate::rat::Q, th: crate::rat::Q)
    requires
        crate::rat::q_valid(g.x),
        crate::rat::q_valid(g.y),
        crate::rat::q_valid(g.z),
        crate::rat::q_valid(tw),
        crate::rat::q_valid(th),
        q_pos(tw),
        q_pos(th),
        crate::rat::q_le(g.z, q_int(1)),
    ensures
        q_eq(w2g_x(QV3 { x: g2w_x(g, tw), y: g2w_y(g, th), z: g.z }, tw, th), g.x),
        q_eq(w2g_y(QV3 { x: g2w_x(g, tw), y: g2w_y(g, th), z: g.z }, tw, th), g.y),
{
    let hw = q_half(tw);
    let hh = q_half(th);
    let s = q_sub(g.x, g.y);
    let t = q_add(g.x, g.y);
    let wx = g2w_x(g, tw);
    let m1 = q_mul(t, hh);
    let lift = q_mul(th, q_max0(q_sub(g.z, q_int(1))));
    let wy = g2w_y(g, th);
    let a = q_div(wx, hw);
    let b = q_div(wy, hh);

    // The layer is at most 1, so the lift term is zero as a number.
    let sub1 = q_sub(g.z, q_int(1));
    assert(sub1.n <= 0);
    if sub1.n < 0 {
        assert(q_max0(sub1) == q_int(0));
        lemma_pos_mul(th.d, 1);
    } else {
        assert(q_max0(sub1) == sub1);
        lemma_pos_mul(th.d, sub1.d);
    }
    assert(lift.n == th.n * q_max0(sub1).n);
    assert(lift.n == 0) by (nonlinear_arith)
        requires
            lift.n == th.n * q_max0(sub1).n,
            q_max0(sub1).n == 0,
    ;

    // Denominators of every intermediate stay positive.
    lemma_pos_mul(g.x.d, g.y.d);
    lemma_pos_mul(s.d, hw.d);
    lemma_pos_mul(t.d, hh.d);
    lemma_pos_mul(wx.d, hw.n);
    lemma_pos_mul(m1.d, lift.d);
    lemma_pos_mul(wy.d, hh.n);
    lemma_pos_mul(m1.d, hh.n);
    lemma_pos_mul(a.d, b.d);
    lemma_pos_mul(s.d, t.d);

    // Dividing each world component by its half-extent recovers the
    // difference and the sum of the grid coordinates.
    crate::rat::lemma_q_div_mul_cancel(s, hw);
    crate::rat::lemma_q_add_zero(m1, lift);
    crate::rat::lemma_q_eq_div_left(wy, m1, hh);
    crate::rat::lemma_q_div_mul_cancel(t, hh);
    crate::rat::lemma_q_eq_trans(b, q_div(m1, hh), t);

    // Their half-sum and half-difference are the grid coordinates.
    crate::rat::lemma_q_eq_add(a, b, s, t);
    crate::rat::lemma_q_eq_half(q_add(a, b), q_add(s, t));
    lemma_half_sum_diff(g.x, g.y);
    crate::rat::lemma_q_eq_trans(
        q_half(q_add(a, b)),
        q_half(q_add(s, t)),
        g.x,
    );

    crate::rat::lemma_q_eq_sub(b, a, t, s);
    crate::rat::lemma_q_eq_half(q_sub(b, a), q_sub(t, s));
    crate::rat::lemma_q_eq_trans(
        q_half(q_sub(b, a)),
        q_half(q_sub(t, s)),
        g.y,
    );
}

/// Cosine of a multiple of 90 degrees, given the degree count.
pub open spec fn quarter_cos(degrees: int) -> int {
    let k = (degrees / 90) % 4;
    if k == 0 {
        1
    } else if k == 2 {
        -1
    } else {
        0
    }
}

/// Sine of a multiple of 90 degrees, given the degree count.
pub open spec fn quarter_sin(degrees: int) -> int {
    let k = (degrees / 90) % 4;
    if k == 1 {
        1
    } else if k == 3 {
        -1
    } else {
        0
    }
}

/// Rotates the x/y components of `v` by `degrees`, a multiple of 90. The
/// rotation deliberately adds the sine term on both axes (`x' = x cos +
/// y sin`, `y' = x sin + y cos`) rather than subtracting one of them as the
/// textbook matrix would; callers depend on this exact form.
pub fn rotate_vector(v: RVec3, degrees: i64) -> (r: RVec3)
    requires
        v.valid(),
        degrees % 90 == 0,
        v.small(1_000_000_000_000_000_000),
    ensures
        r.valid(),
        r.q().x == q_add(
            q_mul(v.q().x, q_int(quarter_cos(degrees as int))),
            q_mul(v.q().y, q_int(quarter_sin(degrees as int))),
        ),
        r.q().y == q_add(
            q_mul(v.q().x, q_int(quarter_sin(degrees as int))),
            q_mul(v.q().y, q_int(quarter_cos(degrees as int))),
        ),
        r.q().z == v.q().z,
{
    proof {
        lemma_floor_between(degrees as int, 90);
    }
    let k = degrees.checked_div_euclid(90).unwrap().checked_rem_euclid(4).unwrap();
    let cos: i128 = if k == 0 {
        1
    } else if k == 2 {
        -1
    } else {
        0
    };
    let sin: i128 = if k == 1 {
        1
    } else if k == 3 {
        -1
    } else {
        0
    };
    let cos_r = Rat::from_int(cos);
    let sin_r = Rat::from_int(sin);

    proof {
        let b: int = 1_000_000_000_000_000_000;
        let c: int = cos as int;
        let s: int = sin as int;
        lemma_abs_mul_le(v.x.q().n, c, b, 1);
        lemma_abs_mul_le(v.y.q().n, s, b, 1);
        lemma_abs_mul_le(v.x.q().n, s, b, 1);
        lemma_abs_mul_le(v.y.q().n, c, b, 1);
        lemma_abs_mul_le(v.x.q().n * c, v.y.q().d, b, b);
        lemma_abs_mul_le(v.y.q().n * s, v.x.q().d, b, b);
        lemma_abs_mul_le(v.x.q().n * s, v.y.q().d, b, b);
        lemma_abs_mul_le(v.y.q().n * c, v.x.q().d, b, b);
        lemma_abs_mul_le(v.x.q().d, v.y.q().d, b, b);
    }
    let rx = v.x.mul(cos_r).add(v.y.mul(sin_r));
    let ry = v.x.mul(sin_r).add(v.y.mul(cos_r));

    RVec3 { x: rx, y: ry, z: v.z }
}

/// What the point-in-tile test reports: the world point, taken to grid
/// space and floored componentwise, lands exactly on the target cell, and
/// the floored column and row are non-negative.
pub open spec fn spec_is_inside_tile(
    w: QV3,
    target: QV3,
    tw: crate::rat::Q,
    th: crate::rat::Q,
) -> bool {
    let fx = q_floor(w2g_x(w, tw, th));
    let fy = q_floor(w2g_y(w, tw, th));
    let fz = q_floor(w.z);
    &&& fx >= 0
    &&& fy >= 0
    &&& q_eq(target.x, q_int(fx))
    &&& q_eq(target.y, q_int(fy))
    &&& q_eq(target.z, q_int(fz))
}

/// Bounds under which the point-in-tile test is free of overflow: world
/// point and target cell up to a hundred million in numerator and
/// denominator, tile extents up to a million and strictly positive.
pub open spec fn is_inside_tile_ok(
    w: QV3,
    target: QV3,
    tw: crate::rat::Q,
    th: crate::rat::Q,
) -> bool {
    &&& q_small(w.x, 100_000_000)
    &&& q_small(w.y, 100_000_000)
    &&& q_small(w.z, 100_000_000)
    &&& q_small(target.x, 100_000_000)
    &&& q_small(target.y, 100_000_000)
    &&& q_small(target.z, 100_000_000)
    &&& q_small(tw, 1_000_000)
    &&& q_small(th, 1_000_000)
    &&& q_pos(tw)
    &&& q_pos(th)
}

/// Within the bounds above, every intermediate of the inverse projection
/// fits in `i128`, and its components stay below `4 * 10^28`.
pub proof fn lemma_w2g_ok_bounded(w: QV3, tw: crate::rat::Q, th: crate::rat::Q)
    requires
        q_small(w.x, 100_000_000),
        q_small(w.y, 100_000_000),
        q_small(w.z, 100_000_000),
        q_small(tw, 1_000_000),
        q_small(th, 1_000_000),
        q_pos(tw),
        q_pos(th),
    ensures
        w2g_ok(w, tw, th),
        q_small(w2g_x(w, tw, th), 40_000_000_000_000_000_000_000_000_000),
        q_small(w2g_y(w, tw, th), 40_000_000_000_000_000_000_000_000_000),
{
    let bw: int = 100_000_000;
    let bt: int = 1_000_000;
    let dx = q_div(w.x, q_half(tw));
    let dy = q_div(w.y, q_half(th));
    // dx, dy: numerator up to 2 * 10^14, denominator positive up to 10^14.
    lemma_abs_mul_le(w.x.n, 2 * tw.d, bw, 2 * bt);
    lemma_abs_mul_le(w.y.n, 2 * th.d, bw, 2 * bt);
    lemma_abs_mul_le(w.x.d, tw.n, bw, bt);
    lemma_abs_mul_le(w.y.d, th.n, bw, bt);
    lemma_pos_mul(w.x.d, tw.n);
    lemma_pos_mul(w.y.d, th.n);
    // sums and differences: numerator up to 4 * 10^28, denominator up to 10^28.
    lemma_abs_mul_le(dx.n, dy.d, 2_00_000_000_000_000, 100_000_000_000_000);
    lemma_abs_mul_le(dy.n, dx.d, 2_00_000_000_000_000, 100_000_000_000_000);
    lemma_abs_mul_le(dx.d, dy.d, 100_000_000_000_000, 100_000_000_000_000);
    lemma_pos_mul(dx.d, dy.d);
}

/// For whole-cell grid coordinates up to a million on each axis and tile
/// extents bounded by `10^12`, every intermediate of the projection fits in
/// `i128`, and the projected x and y stay below `2 * 10^18` and `4 * 10^30`.
pub proof fn lemma_g2w_ok_cells(g: QV3, tw: crate::rat::Q, th: crate::rat::Q)
    requires
        g.x.d == 1,
        g.y.d == 1,
        g.z.d == 1,
        0 <= g.x.n <= 1_000_000,
        0 <= g.y.n <= 1_000_000,
        0 <= g.z.n <= 1_000_000,
        q_small(tw, 1_000_000_000_000),
        q_small(th, 1_000_000_000_000),
    ensures
        g2w_ok(g, tw, th),
        q_small(g2w_x(g, tw), 2_000_000_000_000_000_000),
        q_small(g2w_y(g, th), 4_000_000_000_000_000_000_000_000_000_000),
{
    let b6: int = 1_000_000;
    let b12: int = 1_000_000_000_000;
    let diff = q_sub(g.x, g.y);
    let sum = q_add(g.x, g.y);
    let lift_factor = q_max0(q_sub(g.z, q_int(1)));
    assert(diff.d == 1 && sum.d == 1 && lift_factor.d == 1);
    lemma_abs_mul_le(diff.n, tw.n, b6, b12);
    lemma_abs_mul_le(sum.n, th.n, 2 * b6, b12);
    lemma_abs_mul_le(th.n, lift_factor.n, b12, b6);
    let y1 = q_mul(sum, q_half(th));
    let y2 = q_mul(th, lift_factor);
    assert(y1.d == 2 * th.d) by (nonlinear_arith)
        requires
            y1.d == sum.d * (2 * th.d),
            sum.d == 1,
    ;
    assert(y2.d == th.d) by (nonlinear_arith)
        requires
            y2.d == th.d * lift_factor.d,
            lift_factor.d == 1,
    ;
    assert(q_mul(diff, q_half(tw)).d == 2 * tw.d) by (nonlinear_arith)
        requires
            q_mul(diff, q_half(tw)).d == diff.d * (2 * tw.d),
            diff.d == 1,
    ;
    lemma_abs_mul_le(y1.n, y2.d, 2_000_000_000_000_000_000, b12);
    lemma_abs_mul_le(y2.n, y1.d, 1_000_000_000_000_000_000, 2 * b12);
    lemma_abs_mul_le(y1.d, y2.d, 2 * b12, b12);
    lemma_pos_mul(y1.d, y2.d);
}

/// Hit test: whether the world point falls inside the target grid cell.
/// The world point is taken to grid space, floored componentwise, and
/// compared against the target cell, which must also be non-negative.
pub fn is_inside_tile(
    world_pos: RVec3,
    target_grid_pos: RVec3,
    tile_width: Rat,
    tile_height: Rat,
) -> (r: bool)
    requires
        world_pos.valid(),
        target_grid_pos.valid(),
        tile_width.valid(),
        tile_height.valid(),
        is_inside_tile_ok(world_pos.q(), target_grid_pos.q(), tile_width.q(), tile_height.q()),
    ensures
        r == spec_is_inside_tile(
            world_pos.q(),
            target_grid_pos.q(),
            tile_width.q(),
            tile_height.q(),
        ),
{
    proof {
        lemma_w2g_ok_bounded(world_pos.q(), tile_width.q(), tile_height.q());
    }
    let world_grid_pos = world_to_grid(world_pos, tile_width, tile_height);

    proof {
        let bf: int = 40_000_000_000_000_000_000_000_000_000;
        lemma_floor_between(world_grid_pos.x.q().n, world_grid_pos.x.q().d);
        lemma_floor_between(world_grid_pos.y.q().n, world_grid_pos.y.q().d);
        lemma_floor_between(world_grid_pos.z.q().n, world_grid_pos.z.q().d);
        lemma_abs_mul_le(q_floor(world_grid_pos.x.q()), target_grid_pos.x.q().d, bf, 100_000_000);
        lemma_abs_mul_le(q_floor(world_grid_pos.y.q()), target_grid_pos.y.q().d, bf, 100_000_000);
        lemma_abs_mul_le(q_floor(world_grid_pos.z.q()), target_grid_pos.z.q().d, 100_000_000, 100_000_000);
    }
    let fx = world_grid_pos.x.floor();
    let fy = world_grid_pos.y.floor();
    let fz = world_grid_pos.z.floor();

    fx >= 0 && fy >= 0 && target_grid_pos.x.eq_rat(Rat::from_int(fx))
        && target_grid_pos.y.eq_rat(Rat::from_int(fy)) && target_grid_pos.z.eq_rat(
        Rat::from_int(fz),
    )
}

/// Componentwise equality of two rational vectors, as numbers.
pub fn vec3_eq(a: RVec3, b: RVec3) -> (r: bool)
    requires
        a.valid(),
        b.valid(),
        cmp_ok(a.q().x, b.q().x),
        cmp_ok(a.q().y, b.q().y),
        cmp_ok(a.q().z, b.q().z),
    ensures
        r == (q_eq(a.q().x, b.q().x) && q_eq(a.q().y, b.q().y) && q_eq(a.q().z, b.q().z)),
{
    a.x.eq_rat(b.x) && a.y.eq_rat(b.y) && a.z.eq_rat(b.z)
}

} // verus!
