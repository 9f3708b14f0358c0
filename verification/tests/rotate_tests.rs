use isotilemap::grid::{GridOffset, GridPosition, TileSize};
use isotilemap::math::vec3_eq;
use isotilemap::ordering::{calculate_z_order, update_z_orders, ZOffset};
use isotilemap::rat::Rat;
use isotilemap::rotate::{rotate, rotate_grid, GridRotationEvent, PlacedObject};
use isotilemap::spawning::layer_placements;
use isotilemap::tilemap_file::LayerDefinition;
use isotilemap::vec3::RVec3;
use isotilemap::WorldScale;

fn int_vec(x: i128, y: i128, z: i128) -> RVec3 {
    RVec3::new(Rat::from_int(x), Rat::from_int(y), Rat::from_int(z))
}

fn zero_offset() -> GridOffset {
    GridOffset { x: Rat::from_int(0), y: Rat::from_int(0) }
}

#[test]
fn test_rotate_step_clockwise() {
    let tile = TileSize::new(Rat::from_int(64), Rat::from_int(32));
    let scale = WorldScale(Rat::from_int(1));

    let (pos, translation) = rotate(
        &GridRotationEvent::Clockwise,
        GridPosition::new(0, 0, 0),
        4,
        &tile,
        &scale,
        &zero_offset(),
    );

    assert_eq!(pos, GridPosition::new(0, 3, 0));
    assert!(vec3_eq(translation, int_vec(-96, 48, 0)));
}

#[test]
fn test_rotate_step_applies_offset_and_scale() {
    let tile = TileSize::new(Rat::from_int(64), Rat::from_int(32));
    let scale = WorldScale(Rat::from_int(2));
    let offset = GridOffset { x: Rat::from_int(5), y: Rat::from_int(10) };

    let (pos, translation) = rotate(
        &GridRotationEvent::CounterClockwise,
        GridPosition::new(0, 0, 0),
        4,
        &tile,
        &scale,
        &offset,
    );

    // Counter-clockwise from (0, 0) in a grid of side 4 is (3, 0); with the
    // doubled tile the projection gives (192, 96), plus the offset.
    assert_eq!(pos, GridPosition::new(3, 0, 0));
    assert!(vec3_eq(translation, int_vec(197, 106, 0)));
}

#[test]
fn test_rotate_grid_batch() {
    let tile = TileSize::new(Rat::from_int(64), Rat::from_int(32));
    let scale = WorldScale(Rat::from_int(1));
    let mut objects = vec![
        PlacedObject {
            grid_position: GridPosition::new(0, 0, 0),
            translation: int_vec(0, 0, 0),
            offset: zero_offset(),
        },
        PlacedObject {
            grid_position: GridPosition::new(2, 1, 0),
            translation: int_vec(32, 48, 0),
            offset: zero_offset(),
        },
    ];

    rotate_grid(&GridRotationEvent::Clockwise, &mut objects, 4, &tile, &scale);

    assert_eq!(objects[0].grid_position, GridPosition::new(0, 3, 0));
    assert_eq!(objects[1].grid_position, GridPosition::new(1, 1, 0));
    assert!(vec3_eq(objects[0].translation, int_vec(-96, 48, 0)));
    assert!(vec3_eq(objects[1].translation, int_vec(0, 32, 0)));
}

#[test]
fn test_calculate_z_order() {
    let depth = calculate_z_order(int_vec(0, 96, 0), &ZOffset(Rat::from_int(200)));
    // 200 - 96 / 100.
    assert!(depth.eq_rat(Rat::new(19904, 100)));
}

#[test]
fn test_update_z_orders() {
    let mut objects = vec![
        (int_vec(10, 100, 0), ZOffset(Rat::from_int(100))),
        (int_vec(20, 50, 3), ZOffset(Rat::from_int(200))),
    ];

    update_z_orders(&mut objects);

    assert!(objects[0].0.z.eq_rat(Rat::from_int(99)));
    assert!(objects[1].0.z.eq_rat(Rat::new(3990, 20)));
    // x and y are untouched.
    assert!(objects[0].0.x.eq_rat(Rat::from_int(10)));
    assert!(objects[1].0.y.eq_rat(Rat::from_int(50)));
}

#[test]
fn test_layer_placements() {
    let layer = LayerDefinition::new(2, "ground", vec![vec![-1, 5], vec![7, -1]]);
    let tile = TileSize::new(Rat::from_int(128), Rat::from_int(64));
    let scale = WorldScale(Rat::from_int(1));

    let placements = layer_placements(&layer, &tile, &scale);

    assert_eq!(placements.len(), 2);

    assert_eq!(placements[0].tile_id, 5);
    assert_eq!(placements[0].position, GridPosition::new(1, 0, 2));
    assert!(placements[0].z_offset.0.eq_rat(Rat::from_int(200)));
    assert!(vec3_eq(placements[0].translation, int_vec(64, 96, 2)));

    assert_eq!(placements[1].tile_id, 7);
    assert_eq!(placements[1].position, GridPosition::new(0, 1, 2));
    assert!(vec3_eq(placements[1].translation, int_vec(-64, 96, 2)));
}

#[test]
fn test_layer_placements_empty_layer() {
    let layer = LayerDefinition::new(0, "empty", vec![vec![-1, -1], vec![-1, -1]]);
    let tile = TileSize::new(Rat::from_int(64), Rat::from_int(32));
    let scale = WorldScale(Rat::from_int(1));

    assert!(layer_placements(&layer, &tile, &scale).is_empty());
}

#[test]
fn test_sorted_layer_order() {
    let layers = vec![
        LayerDefinition::new(3, "c", vec![]),
        LayerDefinition::new(1, "a", vec![]),
        LayerDefinition::new(2, "b", vec![]),
    ];

    let order = isotilemap::spawning::sorted_layer_order(&layers);
    assert_eq!(order, vec![1, 2, 0]);

    let ties = vec![
        LayerDefinition::new(5, "x", vec![]),
        LayerDefinition::new(5, "y", vec![]),
    ];
    let tie_order = isotilemap::spawning::sorted_layer_order(&ties);
    assert_eq!(tie_order.len(), 2);
    assert!(tie_order.contains(&0) && tie_order.contains(&1));
}
