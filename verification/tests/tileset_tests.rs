use isotilemap::rat::Rat;
use isotilemap::tileset::{
    AnimatedTileDefBuilder, Error, ImageDimensions, SourceDefinition, TileDefinition,
    TilePosition, TileSize, TilesetDefinitionBuilder,
};

fn source(path: &str) -> SourceDefinition {
    SourceDefinition::new(path, ImageDimensions::new(256, 256))
}

#[test]
fn test_duplicated_positions_rejected() {
    let result = TilesetDefinitionBuilder::new(source("./tiles.png"))
        .add_tile(TileDefinition::new_standard(1, 0, 0))
        .add_tile(TileDefinition::new_standard(2, 0, 0))
        .build();

    assert_eq!(
        result,
        Err(Error::DuplicatedTilePositions(vec![((0, 0), vec![1, 2])]))
    );
}

#[test]
fn test_duplicated_ids_rejected() {
    // `add_tile` upserts by id, so a duplicated id can only come from a
    // tile list assembled directly, as a deserializer would.
    let builder = TilesetDefinitionBuilder {
        source: source("./tiles.png"),
        tile_size: None,
        name: None,
        tiles: vec![
            TileDefinition::new_standard(1, 0, 0),
            TileDefinition::new_animated(1, Rat::new(1, 2)),
        ],
    };

    assert_eq!(builder.build(), Err(Error::DuplicatedTileIds(vec![(1, 2)])));
}

#[test]
fn test_name_derived_from_source_file() {
    let definition = TilesetDefinitionBuilder::new(source("./assets/tiles.png"))
        .add_tile(TileDefinition::new_standard(1, 0, 0))
        .build()
        .unwrap();

    assert_eq!(definition.name(), "tiles.png");
}

#[test]
fn test_explicit_name_kept() {
    let definition = TilesetDefinitionBuilder::new(source("./assets/tiles.png"))
        .with_name("terrain")
        .build()
        .unwrap();

    assert_eq!(definition.name(), "terrain");
}

#[test]
fn test_invalid_name_when_no_file_component() {
    let result = TilesetDefinitionBuilder::new(source("/")).build();
    assert_eq!(result, Err(Error::InvalidName));

    let dotdot = TilesetDefinitionBuilder::new(source("..")).build();
    assert_eq!(dotdot, Err(Error::InvalidName));

    // A path ending in the parent component has no file name either.
    let parent = TilesetDefinitionBuilder::new(source("a/b/..")).build();
    assert_eq!(parent, Err(Error::InvalidName));
}

#[test]
fn test_name_skips_trailing_dot_components() {
    // Trailing slashes and `.` components are dropped, so the last real
    // component names the tileset.
    let definition = TilesetDefinitionBuilder::new(source("assets/.")).build().unwrap();
    assert_eq!(definition.name(), "assets");

    let slashed = TilesetDefinitionBuilder::new(source("assets/tiles.png/.//")).build().unwrap();
    assert_eq!(slashed.name(), "tiles.png");
}

#[test]
fn test_default_tile_size() {
    let definition = TilesetDefinitionBuilder::new(source("./tiles.png")).build().unwrap();
    assert_eq!(definition.tile_size(), TileSize::new(16, 16));

    let sized = TilesetDefinitionBuilder::new(source("./tiles.png"))
        .with_tile_size(32, 24)
        .build()
        .unwrap();
    assert_eq!(sized.tile_size(), TileSize::new(32, 24));
}

#[test]
fn test_add_tile_replaces_same_id_in_place() {
    let builder = TilesetDefinitionBuilder::new(source("./tiles.png"))
        .add_tile(TileDefinition::new_standard(1, 0, 0))
        .add_tile(TileDefinition::new_standard(2, 1, 0))
        .add_tile(TileDefinition::new_standard(1, 5, 5));

    assert_eq!(
        builder.tiles,
        vec![
            TileDefinition::new_standard(1, 5, 5),
            TileDefinition::new_standard(2, 1, 0),
        ]
    );
}

#[test]
fn test_remove_tile() {
    let builder = TilesetDefinitionBuilder::new(source("./tiles.png"))
        .add_tile(TileDefinition::new_standard(1, 0, 0))
        .add_tile(TileDefinition::new_standard(2, 1, 0))
        .remove_tile(1);

    assert_eq!(builder.tiles, vec![TileDefinition::new_standard(2, 1, 0)]);

    let untouched = TilesetDefinitionBuilder::new(source("./tiles.png"))
        .add_tile(TileDefinition::new_standard(1, 0, 0))
        .remove_tile(9);

    assert_eq!(untouched.tiles, vec![TileDefinition::new_standard(1, 0, 0)]);
}

#[test]
fn test_animated_tiles_exempt_from_position_check() {
    let animated = AnimatedTileDefBuilder::new(2)
        .add_position(TilePosition::new(0, 0))
        .add_position(TilePosition::new(1, 0))
        .build();

    let definition = TilesetDefinitionBuilder::new(source("./tiles.png"))
        .add_tile(TileDefinition::new_standard(1, 0, 0))
        .add_tile(animated)
        .build();

    assert!(definition.is_ok());
}

#[test]
fn test_animated_tile_builder() {
    let tile = AnimatedTileDefBuilder::new(3)
        .with_interval(Rat::new(1, 4))
        .add_position(TilePosition::new(0, 0))
        .add_position(TilePosition::new(1, 0))
        .build();

    assert_eq!(
        tile,
        TileDefinition::Animated {
            id: 3,
            positions: vec![TilePosition::new(0, 0), TilePosition::new(1, 0)],
            interval_per_sec: Rat::new(1, 4),
        }
    );
    assert!(tile.is_animated());
    assert!(!tile.is_standard());
    assert_eq!(tile.id(), 3);
}

#[test]
fn test_animated_remove_and_clear_positions() {
    let builder = AnimatedTileDefBuilder::new(1)
        .add_position(TilePosition::new(0, 0))
        .add_position(TilePosition::new(1, 0))
        .remove_position(TilePosition::new(1, 9));

    // No stored frame equals (1, 9), so nothing is removed.
    assert_eq!(
        builder.positions,
        vec![TilePosition::new(0, 0), TilePosition::new(1, 0)]
    );

    let removed = builder.remove_position(TilePosition::new(1, 0));
    assert_eq!(removed.positions, vec![TilePosition::new(0, 0)]);

    let cleared = removed.clear_positions();
    assert!(cleared.positions.is_empty());
}

#[test]
fn test_with_id_and_with_source() {
    let tile = AnimatedTileDefBuilder::new(1).with_id(9).build();
    assert_eq!(tile.id(), 9);

    let other = source("./other.png");
    let builder = TilesetDefinitionBuilder::new(source("./tiles.png")).with_source(other.clone());
    assert_eq!(builder.source, other);
    assert_eq!(other.path(), "./other.png");
    assert_eq!(other.dimensions(), ImageDimensions::new(256, 256));
    assert_eq!(other.dimensions().width(), 256);
    assert_eq!(other.dimensions().height(), 256);
}
