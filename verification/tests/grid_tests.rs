use isotilemap::grid::GridPosition;

#[test]
fn test_rotate_clockwise() {
    let p1 = GridPosition::new(0, 0, 0);
    let p2 = GridPosition::new(2, 1, 0);

    let r1 = p1.rotate_c(4);
    let r2 = p2.rotate_c(4);

    assert_eq!(GridPosition::new(0, 3, 0), r1);
    assert_eq!(GridPosition::new(1, 1, 0), r2);
}

#[test]
fn test_rotate_counter_clockwise() {
    let p1 = GridPosition::new(0, 0, 0);
    let p2 = GridPosition::new(2, 1, 0);

    let r1 = p1.rotate_cc(4);
    let r2 = p2.rotate_cc(4);

    assert_eq!(GridPosition::new(3, 0, 0), r1);
    assert_eq!(GridPosition::new(2, 2, 0), r2);
}

#[test]
fn test_rotate_clockwise_keeps_layer() {
    let p = GridPosition::new(1, 2, 7);
    assert_eq!(p.rotate_c(5).layer, 7);
    assert_eq!(p.rotate_cc(5).layer, 7);
}

#[test]
fn test_rotate_round_trip() {
    let p = GridPosition::new(2, 1, 3);
    let four = p.rotate_c(4).rotate_c(4).rotate_c(4).rotate_c(4);
    assert_eq!(four, p);

    let four_cc = p.rotate_cc(4).rotate_cc(4).rotate_cc(4).rotate_cc(4);
    assert_eq!(four_cc, p);

    assert_eq!(p.rotate_c(4).rotate_cc(4), p);
    assert_eq!(p.rotate_cc(4).rotate_c(4), p);
}
