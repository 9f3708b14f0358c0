use isotilemap::math::{grid_to_world, is_inside_tile, rotate_vector, vec3_eq, world_to_grid};
use isotilemap::rat::Rat;
use isotilemap::vec3::RVec3;

fn int_vec(x: i128, y: i128, z: i128) -> RVec3 {
    RVec3::new(Rat::from_int(x), Rat::from_int(y), Rat::from_int(z))
}

#[test]
fn test_grid_to_world() {
    let grid_pos = int_vec(1, 0, 2);
    let target = int_vec(64, 96, 2);

    assert!(vec3_eq(grid_to_world(grid_pos, Rat::from_int(128), Rat::from_int(64)), target));
}

#[test]
fn test_grid_to_world_inside() {
    let grid_pos = RVec3::new(Rat::new(1, 2), Rat::from_int(0), Rat::from_int(0));
    let target = int_vec(32, 16, 0);

    assert!(vec3_eq(grid_to_world(grid_pos, Rat::from_int(128), Rat::from_int(64)), target));
}

#[test]
fn test_world_to_grid() {
    let world_pos = int_vec(64, 32, 0);
    let target = int_vec(1, 0, 0);

    assert!(vec3_eq(world_to_grid(world_pos, Rat::from_int(128), Rat::from_int(64)), target));
}

#[test]
fn test_world_to_grid_inside() {
    let world_pos = int_vec(32, 16, 0);
    let target = RVec3::new(Rat::new(1, 2), Rat::from_int(0), Rat::from_int(0));

    assert!(vec3_eq(world_to_grid(world_pos, Rat::from_int(128), Rat::from_int(64)), target));
}

#[test]
fn test_is_inside_tile() {
    let world_pos = RVec3::new(
        Rat::new(31285934, 100000),
        Rat::new(2547338, 10000),
        Rat::from_int(0),
    );
    let target = int_vec(12, 3, 0);

    assert!(is_inside_tile(world_pos, target, Rat::from_int(32 * 2), Rat::from_int(16 * 2)));
}

#[test]
fn test_is_outside_tile() {
    let world_pos = RVec3::new(
        Rat::new(-22445679, 10000000),
        Rat::new(-73335556, 1000000),
        Rat::from_int(0),
    );
    let target = int_vec(0, 0, 0);

    assert!(!is_inside_tile(world_pos, target, Rat::from_int(32), Rat::from_int(16)));
}

#[test]
fn test_rotate_vector() {
    let old_pos = int_vec(1, 0, 0);
    let new_pos = int_vec(0, 1, 0);
    let rotated = rotate_vector(old_pos, 90);

    assert!(vec3_eq(rotated, new_pos));
}

#[test]
fn test_rotate_vector_adds_both_sine_terms() {
    // The deliberately non-standard form: both axes add the sine term, so a
    // quarter turn of (0, 1) lands on (1, 0) — just like (1, 0) does.
    let rotated = rotate_vector(int_vec(0, 1, 0), 90);
    assert!(vec3_eq(rotated, int_vec(1, 0, 0)));

    // A half turn negates both components.
    let half = rotate_vector(int_vec(3, 4, 5), 180);
    assert!(vec3_eq(half, int_vec(-3, -4, 5)));
}

#[test]
fn test_world_to_grid_undoes_grid_to_world() {
    // Layers 0 and 1 carry no height bias, so the round trip is exact there.
    let grid_pos = RVec3::new(Rat::new(7, 2), Rat::from_int(5), Rat::from_int(1));
    let world = grid_to_world(grid_pos, Rat::from_int(64), Rat::from_int(32));
    let back = world_to_grid(world, Rat::from_int(64), Rat::from_int(32));
    assert!(vec3_eq(back, grid_pos));
}
