//! Populating the world from a layer of tile indices: every non-empty cell
//! (empty is the sentinel index, negative one) gets a grid position, a world
//! translation through the isometric projection, and an initial draw-depth
//! offset of a hundred times its layer's ordering key.

use vstd::prelude::*;

use crate::grid::{GridPosition, TileSize};
use crate::math::{g2w_x, g2w_y, grid_to_world, lemma_g2w_ok_cells};
use crate::ordering::ZOffset;
use crate::rat::{lemma_abs_mul_le, lemma_pos_mul, q_int, q_mul, q_small, Q, Rat};
use crate::rotate::grid_q;
use crate::tilemap_file::LayerDefinition;
use crate::vec3::RVec3;
use crate::WorldScale;

verus! {

/// Everything spawned for one occupied cell: the tile to draw, the cell,
/// the initial draw-depth offset, and the world translation.
#[derive(Debug, Clone, Copy)]
pub struct Placement {
    pub tile_id: u32,
    pub position: GridPosition,
    pub z_offset: ZOffset,
    pub translation: RVec3,
}

/// The occupied cells of the first `n` entries of one row `y`, as `(x, y)`
/// pairs in column order.
pub open spec fn row_cells(row: Seq<i32>, y: usize, n: int) -> Seq<(usize, usize)>
    decreases n,
{
    if n <= 0 {
        Seq::empty()
    } else {
        let p = row_cells(row, y, n - 1);
        if row[n - 1] != -1 {
            p.push(((n - 1) as usize, y))
        } else {
            p
        }
    }
}

/// The occupied cells of the first `m` rows, in row-major order.
pub open spec fn grid_cells(tiles: Seq<Vec<i32>>, m: int) -> Seq<(usize, usize)>
    decreases m,
{
    if m <= 0 {
        Seq::empty()
    } else {
        grid_cells(tiles, m - 1) + row_cells(
            tiles[m - 1]@,
            (m - 1) as usize,
            tiles[m - 1]@.len() as int,
        )
    }
}

/// Every cell the enumeration lists is in bounds and occupied.
pub proof fn lemma_row_cells_sound(row: Seq<i32>, y: usize, n: int)
    requires
        n <= row.len(),
        n <= usize::MAX,
    ensures
        forall|k: int|
            0 <= k < row_cells(row, y, n).len() ==> {
                &&& (#[trigger] row_cells(row, y, n)[k]).1 == y
                &&& row_cells(row, y, n)[k].0 < n
                &&& row[row_cells(row, y, n)[k].0 as int] != -1
            },
    decreases n,
{
    if n > 0 {
        lemma_row_cells_sound(row, y, n - 1);
        let p = row_cells(row, y, n - 1);
        let c = row_cells(row, y, n);
        assert forall|k: int| 0 <= k < c.len() implies {
            &&& (#[trigger] c[k]).1 == y
            &&& c[k].0 < n
            &&& row[c[k].0 as int] != -1
        } by {
            if row[n - 1] != -1 {
                if k < p.len() {
                    assert(c[k] == p[k]);
                } else {
                    assert(c[k] == (((n - 1) as usize, y)));
                }
            } else {
                assert(c[k] == p[k]);
            }
        }
    }
}

/// Every cell the row-major enumeration lists is in bounds and occupied.
pub proof fn lemma_grid_cells_sound(tiles: Seq<Vec<i32>>, m: int)
    requires
        m <= tiles.len(),
        m <= usize::MAX,
    ensures
        forall|k: int|
            0 <= k < grid_cells(tiles, m).len() ==> {
                &&& (#[trigger] grid_cells(tiles, m)[k]).1 < m
                &&& grid_cells(tiles, m)[k].0 < tiles[grid_cells(tiles, m)[k].1 as int]@.len()
                &&& tiles[grid_cells(tiles, m)[k].1 as int]@[grid_cells(tiles, m)[k].0 as int]
                    != -1
            },
    decreases m,
{
    if m > 0 {
        lemma_grid_cells_sound(tiles, m - 1);
        vstd::std_specs::vec::axiom_spec_len(&tiles[m - 1]);
        lemma_row_cells_sound(tiles[m - 1]@, (m - 1) as usize, tiles[m - 1]@.len() as int);
        let p = grid_cells(tiles, m - 1);
        let r = row_cells(tiles[m - 1]@, (m - 1) as usize, tiles[m - 1]@.len() as int);
        let c = grid_cells(tiles, m);
        assert forall|k: int| 0 <= k < c.len() implies {
            &&& (#[trigger] c[k]).1 < m
            &&& c[k].0 < tiles[c[k].1 as int]@.len()
            &&& tiles[c[k].1 as int]@[c[k].0 as int] != -1
        } by {
            if k < p.len() {
                assert(c[k] == p[k]);
            } else {
                assert(c[k] == r[k - p.len()]);
            }
        }
    }
}

proof fn lemma_row_cells_complete(row: Seq<i32>, y: usize, n: int, x: usize)
    requires
        x < n <= row.len(),
        n <= usize::MAX,
        row[x as int] != -1,
    ensures
        exists|k: int|
            0 <= k < row_cells(row, y, n).len() && (#[trigger] row_cells(row, y, n)[k]) == (x, y),
    decreases n,
{
    if x == n - 1 {
        assert(row_cells(row, y, n)[row_cells(row, y, n).len() - 1] == (x, y));
    } else {
        lemma_row_cells_complete(row, y, n - 1, x);
        let k = choose|k: int|
            0 <= k < row_cells(row, y, n - 1).len() && (#[trigger] row_cells(row, y, n - 1)[k])
                == (x, y);
        assert(row_cells(row, y, n)[k] == (x, y));
    }
}

/// Every occupied, in-bounds cell appears in the row-major enumeration.
pub proof fn lemma_grid_cells_complete(tiles: Seq<Vec<i32>>, m: int, x: usize, y: usize)
    requires
        (y as int) < m <= tiles.len(),
        m <= usize::MAX,
        x < tiles[y as int]@.len(),
        tiles[y as int]@[x as int] != -1,
    ensures
        exists|k: int|
            0 <= k < grid_cells(tiles, m).len() && (#[trigger] grid_cells(tiles, m)[k]) == (x, y),
    decreases m,
{
    if y as int == m - 1 {
        vstd::std_specs::vec::axiom_spec_len(&tiles[m - 1]);
        lemma_row_cells_complete(tiles[m - 1]@, y, tiles[m - 1]@.len() as int, x);
        let r = row_cells(tiles[m - 1]@, y, tiles[m - 1]@.len() as int);
        let k = choose|k: int| 0 <= k < r.len() && (#[trigger] r[k]) == (x, y);
        assert(grid_cells(tiles, m)[grid_cells(tiles, m - 1).len() + k] == (x, y));
    } else {
        lemma_grid_cells_complete(tiles, m - 1, x, y);
        let k = choose|k: int|
            0 <= k < grid_cells(tiles, m - 1).len() && (#[trigger] grid_cells(tiles, m - 1)[k])
                == (x, y);
        assert(grid_cells(tiles, m)[k] == (x, y));
    }
}

/// The placement for the cell `c` of `tiles` under the layer's ordering key
/// and the scaled tile extents.
pub open spec fn placement_matches(
    p: Placement,
    c: (usize, usize),
    tiles: Seq<Vec<i32>>,
    order_id: usize,
    twq: Q,
    thq: Q,
) -> bool {
    &&& p.position == (GridPosition { x: c.0, y: c.1, layer: order_id })
    &&& p.tile_id == tiles[c.1 as int]@[c.0 as int] as u32
    &&& p.z_offset.0.valid()
    &&& p.z_offset.0.q() == q_int(100 * (order_id as int))
    &&& p.translation.valid()
    &&& p.translation.q().x == g2w_x(grid_q(p.position), twq)
    &&& p.translation.q().y == g2w_y(grid_q(p.position), thq)
    &&& p.translation.q().z == q_int(order_id as int)
}

/// The placements correspond one to one, in order, to the cells.
pub open spec fn placements_match(
    r: Seq<Placement>,
    cells: Seq<(usize, usize)>,
    tiles: Seq<Vec<i32>>,
    order_id: usize,
    twq: Q,
    thq: Q,
) -> bool {
    &&& r.len() == cells.len()
    &&& forall|k: int|
        0 <= k < r.len() ==> placement_matches(#[trigger] r[k], cells[k], tiles, order_id, twq, thq)
}

/// Computes the placements of one layer: one per occupied cell, in
/// row-major order, each with its grid position, its world translation
/// under the scaled tile extents, and a draw-depth offset of a hundred
/// times the ordering key.
pub fn layer_placements(layer: &LayerDefinition, tilesize: &TileSize, scale: &WorldScale) -> (r:
    Vec<Placement>)
    requires
        tilesize.width.valid(),
        tilesize.height.valid(),
        q_small(tilesize.width.q(), 1_000_000),
        q_small(tilesize.height.q(), 1_000_000),
        scale.0.valid(),
        q_small(scale.0.q(), 1_000_000),
        layer.order_id <= 1_000_000,
        layer.tiles@.len() <= 1_000_000,
        forall|y: int| 0 <= y < layer.tiles@.len() ==> (#[trigger] layer.tiles@[y])@.len()
            <= 1_000_000,
    ensures
        placements_match(
            r@,
            grid_cells(layer.tiles@, layer.tiles@.len() as int),
            layer.tiles@,
            layer.order_id,
            q_mul(tilesize.width.q(), scale.0.q()),
            q_mul(tilesize.height.q(), scale.0.q()),
        ),
{
    let ghost twq = q_mul(tilesize.width.q(), scale.0.q());
    let ghost thq = q_mul(tilesize.height.q(), scale.0.q());
    proof {
        let b6: int = 1_000_000;
        lemma_abs_mul_le(tilesize.width.q().n, scale.0.q().n, b6, b6);
        lemma_abs_mul_le(tilesize.width.q().d, scale.0.q().d, b6, b6);
        lemma_abs_mul_le(tilesize.height.q().n, scale.0.q().n, b6, b6);
        lemma_abs_mul_le(tilesize.height.q().d, scale.0.q().d, b6, b6);
        lemma_pos_mul(tilesize.width.q().d, scale.0.q().d);
        lemma_pos_mul(tilesize.height.q().d, scale.0.q().d);
    }
    let scaled_width = tilesize.width().mul(scale.0);
    let scaled_height = tilesize.height().mul(scale.0);
    let order_id = layer.order_id;
    let z_offset = ZOffset(Rat::from_int((order_id as i128) * 100));

    let mut result: Vec<Placement> = Vec::new();
    let mut y: usize = 0;
    while y < layer.tiles.len()
        invariant
            y <= layer.tiles@.len(),
            order_id == layer.order_id,
            order_id <= 1_000_000,
            layer.tiles@.len() <= 1_000_000,
            forall|j: int| 0 <= j < layer.tiles@.len() ==> (#[trigger] layer.tiles@[j])@.len()
                <= 1_000_000,
            scaled_width.valid(),
            scaled_height.valid(),
            scaled_width.q() == twq,
            scaled_height.q() == thq,
            q_small(twq, 1_000_000_000_000),
            q_small(thq, 1_000_000_000_000),
            z_offset.0.valid(),
            z_offset.0.q() == q_int(100 * (order_id as int)),
            placements_match(
                result@,
                grid_cells(layer.tiles@, y as int),
                layer.tiles@,
                order_id,
                twq,
                thq,
            ),
        decreases layer.tiles@.len() - y,
    {
        let row_len = layer.tiles[y].len();
        let mut x: usize = 0;
        while x < row_len
            invariant
                y < layer.tiles@.len(),
                x <= row_len,
                row_len == layer.tiles@[y as int]@.len(),
                order_id == layer.order_id,
                order_id <= 1_000_000,
                layer.tiles@.len() <= 1_000_000,
                forall|j: int| 0 <= j < layer.tiles@.len() ==> (#[trigger] layer.tiles@[j])@.len()
                    <= 1_000_000,
                scaled_width.valid(),
                scaled_height.valid(),
                scaled_width.q() == twq,
                scaled_height.q() == thq,
                q_small(twq, 1_000_000_000_000),
                q_small(thq, 1_000_000_000_000),
                z_offset.0.valid(),
                z_offset.0.q() == q_int(100 * (order_id as int)),
                placements_match(
                    result@,
                    grid_cells(layer.tiles@, y as int) + row_cells(
                        layer.tiles@[y as int]@,
                        y,
                        x as int,
                    ),
                    layer.tiles@,
                    order_id,
                    twq,
                    thq,
                ),
            decreases row_len - x,
        {
            let v = layer.tiles[y][x];
            if v != -1 {
                let position = GridPosition::new(x, y, order_id);
                proof {
                    lemma_g2w_ok_cells(grid_q(position), twq, thq);
                }
                let translation = grid_to_world(
                    position.to_rvec3(),
                    scaled_width,
                    scaled_height,
                );
                result.push(
                    Placement { tile_id: v as u32, position, z_offset, translation },
                );
                proof {
                    let cells = grid_cells(layer.tiles@, y as int) + row_cells(
                        layer.tiles@[y as int]@,
                        y,
                        x as int,
                    );
                    assert(grid_cells(layer.tiles@, y as int) + row_cells(
                        layer.tiles@[y as int]@,
                        y,
                        x as int + 1,
                    ) =~= cells.push((x, y)));
                }
            } else {
                proof {
                    assert(grid_cells(layer.tiles@, y as int) + row_cells(
                        layer.tiles@[y as int]@,
                        y,
                        x as int + 1,
                    ) =~= grid_cells(layer.tiles@, y as int) + row_cells(
                        layer.tiles@[y as int]@,
                        y,
                        x as int,
                    ));
                }
            }
            x = x + 1;
        }
        y = y + 1;
    }
    result
}

} // verus!

verus! {

/// `v` occurs somewhere in `r`.
pub open spec fn contains_index(r: Seq<usize>, v: int) -> bool {
    exists|k: int| 0 <= k < r.len() && (#[trigger] r[k]) == v
}

/// The indices are a permutation of `0 .. n`: all in bounds, pairwise
/// distinct, and every index present.
pub open spec fn index_permutation(r: Seq<usize>, n: int) -> bool {
    &&& r.len() == n
    &&& forall|k: int| 0 <= k < r.len() ==> (#[trigger] r[k]) < n
    &&& forall|a: int, b: int| 0 <= a < b < r.len() ==> r[a] != r[b]
    &&& forall|v: int| 0 <= v < n ==> #[trigger] contains_index(r, v)
}

/// The order in which the layers spawn: their indices, sorted ascending by
/// ordering key. The storage order of the layers is not assumed sorted;
/// this is the explicit sort that placement must run in.
pub fn sorted_layer_order(layers: &Vec<LayerDefinition>) -> (r: Vec<usize>)
    ensures
        index_permutation(r@, layers@.len() as int),
        forall|a: int, b: int|
            0 <= a < b < r@.len() ==> layers@[r@[a] as int].order_id <= layers@[r@[b]
                as int].order_id,
{
    let n = layers.len();
    let mut r: Vec<usize> = Vec::new();
    let mut i: usize = 0;
    while i < n
        invariant
            i <= n,
            n == layers@.len(),
            r@.len() == i,
            forall|k: int| 0 <= k < i ==> (#[trigger] r@[k]) == k,
        decreases n - i,
    {
        r.push(i);
        i = i + 1;
    }
    proof {
        assert forall|v: int| 0 <= v < n implies #[trigger] contains_index(r@, v) by {
            assert(r@[v] == v);
        }
    }

    let mut i: usize = 0;
    while i < n
        invariant
            i <= n,
            n == layers@.len(),
            index_permutation(r@, n as int),
            forall|a: int, b: int|
                0 <= a < b < i ==> layers@[r@[a] as int].order_id <= layers@[r@[b]
                    as int].order_id,
        decreases n - i,
    {
        let mut j: usize = i;
        while j > 0 && layers[r[j - 1]].order_id > layers[r[j]].order_id
            invariant
                j <= i < n,
                n == layers@.len(),
                index_permutation(r@, n as int),
                forall|a: int, b: int|
                    (0 <= a < b <= i && b != j) ==> layers@[r@[a] as int].order_id
                        <= layers@[r@[b] as int].order_id,
                forall|a: int|
                    j < a <= i ==> layers@[r@[j as int] as int].order_id <= layers@[(
                    #[trigger] r@[a]) as int].order_id,
            decreases j,
        {
            let ghost old_r = r@;
            let lower = r[j - 1];
            let upper = r[j];
            r.set(j - 1, upper);
            r.set(j, lower);
            proof {
                assert forall|v: int| 0 <= v < n implies #[trigger] contains_index(r@, v) by {
                    assert(contains_index(old_r, v));
                    let k0 = choose|k: int| 0 <= k < old_r.len() && (#[trigger] old_r[k]) == v;
                    if k0 == j - 1 {
                        assert(r@[j as int] == v);
                    } else if k0 == j {
                        assert(r@[j as int - 1] == v);
                    } else {
                        assert(r@[k0] == v);
                    }
                }
            }
            j = j - 1;
        }
        i = i + 1;
    }
    r
}

} // verus!
