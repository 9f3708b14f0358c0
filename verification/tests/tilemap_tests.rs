use isotilemap::tilemap::{
    LayerDefinition, TileIdentifier, TilemapDefinition, TilemapDefinitionBuilder, TilesetLink,
};
use isotilemap::tileset::TileSize;

#[test]
fn test_add_layer() {
    let definition = TilemapDefinitionBuilder::new("testmap.json")
        .add_tileset(TilesetLink::new("./testset.json", 't'))
        .build();

    assert_eq!(
        TilemapDefinition {
            name: String::from("testmap.json"),
            tilesets: vec![TilesetLink::new("./testset.json", 't')],
            tile_size: TileSize::new(16, 16),
            layers: Vec::new(),
        },
        definition
    );
}

#[test]
fn test_remove_layer() {
    let definition = TilemapDefinitionBuilder::new("testmap.json")
        .add_tileset(TilesetLink::new("./testset.json", 't'))
        .remove_tileset("./testset.json")
        .build();

    assert_eq!(
        TilemapDefinition {
            name: String::from("testmap.json"),
            tilesets: Vec::new(),
            tile_size: TileSize::new(16, 16),
            layers: Vec::new(),
        },
        definition
    );
}

#[test]
fn test_with_tilesize() {
    let definition = TilemapDefinitionBuilder::new("testmap.json")
        .with_tile_size(32, 32)
        .build();

    assert_eq!(
        TilemapDefinition {
            name: String::from("testmap.json"),
            tilesets: Vec::new(),
            tile_size: TileSize::new(32, 32),
            layers: Vec::new(),
        },
        definition
    );
}

#[test]
fn test_add_tileset_replaces_same_path() {
    let definition = TilemapDefinitionBuilder::new("map")
        .add_tileset(TilesetLink::new("./a.json", 'a'))
        .add_tileset(TilesetLink::new("./b.json", 'b'))
        .add_tileset(TilesetLink::new("./a.json", 'z'))
        .build();

    assert_eq!(
        definition.tilesets,
        vec![TilesetLink::new("./a.json", 'z'), TilesetLink::new("./b.json", 'b')]
    );
}

#[test]
fn test_remove_tileset_absent_is_noop() {
    let definition = TilemapDefinitionBuilder::new("map")
        .add_tileset(TilesetLink::new("./a.json", 'a'))
        .remove_tileset("./missing.json")
        .build();

    assert_eq!(definition.tilesets, vec![TilesetLink::new("./a.json", 'a')]);
}

#[test]
fn test_add_layer_replaces_same_ordering_id() {
    let mut replacement = LayerDefinition::new(1);
    replacement.tiles.push(vec![TileIdentifier::new(4, 't')]);

    let definition = TilemapDefinitionBuilder::new("map")
        .add_layer(LayerDefinition::new(1))
        .add_layer(LayerDefinition::new(2))
        .add_layer(replacement.clone())
        .build();

    assert_eq!(definition.layers, vec![replacement, LayerDefinition::new(2)]);
}

#[test]
fn test_remove_layer_by_ordering_id() {
    let definition = TilemapDefinitionBuilder::new("map")
        .add_layer(LayerDefinition::new(1))
        .add_layer(LayerDefinition::new(2))
        .remove_layer(1)
        .build();

    assert_eq!(definition.layers, vec![LayerDefinition::new(2)]);

    let untouched = TilemapDefinitionBuilder::new("map")
        .add_layer(LayerDefinition::new(1))
        .remove_layer(9)
        .build();

    assert_eq!(untouched.layers, vec![LayerDefinition::new(1)]);
}

#[test]
fn test_tile_identifier_value() {
    assert_eq!(TileIdentifier::new(7, 't').value(), "7_t");
    assert_eq!(TileIdentifier::new(123, 'a').value(), "123_a");
    assert_eq!(TileIdentifier::new(0, 'x').value(), "0_x");
}

#[test]
fn test_layer_definition_accessors() {
    let layer = LayerDefinition::new(3);
    assert_eq!(layer.ordering_id(), 3);
    assert!(layer.tiles().is_empty());
}

#[test]
fn test_tileset_link_accessors() {
    let link = TilesetLink::new("./set.json", 's');
    assert_eq!(link.path(), "./set.json");
    assert_eq!(link.alias(), 's');
}
