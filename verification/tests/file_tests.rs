use isotilemap::rat::Rat;
use isotilemap::tilemap_file::{LayerDefinition, TilemapFile};

#[test]
fn test_tilemap_file_accessors() {
    let layer = LayerDefinition::new(0, "ground", vec![vec![1, -1], vec![-1, 2]]);
    let file = TilemapFile::new(
        "overworld",
        "tiles.png",
        8,
        4,
        Rat::from_int(32),
        Rat::from_int(64),
        vec![layer.clone()],
    );

    assert_eq!(file.name(), "overworld");
    assert_eq!(file.source_image(), "tiles.png");
    assert_eq!(file.columns(), 8);
    assert_eq!(file.rows(), 4);
    assert!(file.tile_height().eq_rat(Rat::from_int(32)));
    assert!(file.tile_width().eq_rat(Rat::from_int(64)));
    assert_eq!(file.layers(), &vec![layer]);
}

#[test]
fn test_file_layer_accessors() {
    let layer = LayerDefinition::new(3, "props", vec![vec![9]]);
    assert_eq!(layer.order_id(), 3);
    assert_eq!(layer.name(), "props");
    assert_eq!(layer.tiles(), &vec![vec![9]]);
}

#[test]
fn test_rat_representation() {
    let r = Rat::new(3, 4);
    assert_eq!(r.num, 3);
    assert_eq!(r.den, 4);
    assert!(r.eq_rat(Rat::new(6, 8)));
    assert!(!r.eq_rat(Rat::new(3, 5)));
    assert_eq!(Rat::new(7, 2).floor(), 3);
    assert_eq!(Rat::new(-7, 2).floor(), -4);
}
