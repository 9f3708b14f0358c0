//! Tilemap definitions: a named collection of layers referencing tilesets
//! through aliased links, built through a builder with upsert semantics.
//! `build` performs no cross-validation — duplicate aliases or dangling tile
//! references are deliberately not rejected — and always succeeds.

use vstd::prelude::*;

use crate::text::{dec_digits, push_char, u32_to_decimal};
use crate::tileset::TileSize;

verus! {

/// A validated, immutable tilemap: name, tileset links, tile size, and
/// layers. Built only through [`TilemapDefinitionBuilder`].
#[derive(Default, Debug, Clone, PartialEq)]
pub struct TilemapDefinition {
    pub name: String,
    pub tilesets: Vec<TilesetLink>,
    pub tile_size: TileSize,
    pub layers: Vec<LayerDefinition>,
}

/// One layer of a tilemap: its ordering key and a 2D array of tile
/// references.
#[derive(Debug, Clone, PartialEq)]
pub struct LayerDefinition {
    pub ordering_id: u32,
    pub tiles: Vec<Vec<TileIdentifier>>,
}

/// A link from a tilemap to a tileset: the tileset's path and the single
/// character the tilemap's tile references use as an alias for it.
#[derive(Debug, Clone, PartialEq)]
pub struct TilesetLink {
    pub path: String,
    pub alias: char,
}

/// Accumulates tileset links and layers, then produces a
/// [`TilemapDefinition`]. Consumed by `build`.
#[derive(Debug, Clone, PartialEq)]
pub struct TilemapDefinitionBuilder {
    pub name: String,
    pub tilesets: Vec<TilesetLink>,
    pub tile_size: Option<TileSize>,
    pub layers: Vec<LayerDefinition>,
}

/// A composite tile reference `"{id}_{alias}"`: a numeric tile id and the
/// alias of the tileset it comes from.
#[derive(Debug, Clone, PartialEq)]
pub struct TileIdentifier(pub String);

/// The text of the identifier for `id` under `alias`: the decimal digits of
/// the id, an underscore, and the alias character.
pub open spec fn spec_identifier(id: u32, alias: char) -> Seq<char> {
    dec_digits(id as nat).push('_').push(alias)
}

impl LayerDefinition {
    /// A fresh, empty layer with the given ordering key.
    pub fn new(ordering_id: u32) -> (r: Self)
        ensures
            r.ordering_id == ordering_id,
            r.tiles@.len() == 0,
    {
        Self { ordering_id, tiles: Vec::new() }
    }

    pub fn ordering_id(&self) -> (r: u32)
        ensures
            r == self.ordering_id,
    {
        self.ordering_id
    }

    pub fn tiles(&self) -> (r: &Vec<Vec<TileIdentifier>>)
        ensures
            r == &self.tiles,
    {
        &self.tiles
    }
}

impl TilesetLink {
    pub fn new(path: &str, alias: char) -> (r: Self)
        ensures
            r.path@ == path@,
            r.alias == alias,
    {
        TilesetLink { path: path.to_owned(), alias }
    }

    pub fn alias(&self) -> (r: char)
        ensures
            r == self.alias,
    {
        self.alias
    }

    pub fn path(&self) -> (r: &str)
        ensures
            r@ == self.path@,
    {
        self.path.as_str()
    }
}

impl TileIdentifier {
    pub fn new(id: u32, alias: char) -> (r: Self)
        ensures
            r.0@ == spec_identifier(id, alias),
    {
        let mut value = u32_to_decimal(id);
        push_char(&mut value, '_');
        push_char(&mut value, alias);
        Self(value)
    }

    pub fn value(&self) -> (r: &str)
        ensures
            r@ == self.0@,
    {
        self.0.as_str()
    }
}

impl TilemapDefinition {
    pub fn name(&self) -> (r: &str)
        ensures
            r@ == self.name@,
    {
        self.name.as_str()
    }

    pub fn tilesets(&self) -> (r: &Vec<TilesetLink>)
        ensures
            r == &self.tilesets,
    {
        &self.tilesets
    }

    pub fn tile_size(&self) -> (r: TileSize)
        ensures
            r == self.tile_size,
    {
        self.tile_size
    }

    pub fn layers(&self) -> (r: &Vec<LayerDefinition>)
        ensures
            r == &self.layers,
    {
        &self.layers
    }
}

impl TilemapDefinitionBuilder {
    /// A fresh builder for a tilemap with the given name and no tilesets,
    /// layers, or tile size yet.
    pub fn new(name: &str) -> (r: Self)
        ensures
            r.name@ == name@,
            r.tilesets@.len() == 0,
            r.tile_size is None,
            r.layers@.len() == 0,
    {
        Self { name: name.to_owned(), tilesets: Vec::new(), tile_size: None, layers: Vec::new() }
    }

    pub fn with_name(self, name: &str) -> (r: Self)
        ensures
            r.name@ == name@,
            r.tilesets == self.tilesets,
            r.tile_size == self.tile_size,
            r.layers == self.layers,
    {
        Self { name: name.to_owned(), ..self }
    }

    pub fn with_tile_size(self, width: usize, height: usize) -> (r: Self)
        ensures
            r.name == self.name,
            r.tilesets == self.tilesets,
            r.layers == self.layers,
            r.tile_size == Some(TileSize { width, height }),
    {
        Self { tile_size: Some(TileSize::new(width, height)), ..self }
    }

    /// Upserts the link by path: replaces the first link with the same path
    /// in place, or appends when the path is new.
    pub fn add_tileset(self, tileset_link: TilesetLink) -> (r: Self)
        ensures
            r.name == self.name,
            r.tile_size == self.tile_size,
            r.layers == self.layers,
            (forall|i: int|
                0 <= i < self.tilesets@.len() ==> (#[trigger] self.tilesets@[i]).path@
                    != tileset_link.path@) ==> r.tilesets@ == self.tilesets@.push(tileset_link),
            forall|j: int|
                (0 <= j < self.tilesets@.len() && (#[trigger] self.tilesets@[j]).path@
                    == tileset_link.path@ && (forall|k: int|
                    0 <= k < j ==> (#[trigger] self.tilesets@[k]).path@ != tileset_link.path@))
                    ==> r.tilesets@ == self.tilesets@.update(j, tileset_link),
    {
        let TilemapDefinitionBuilder { name, mut tilesets, tile_size, layers } = self;
        let mut i: usize = 0;
        while i < tilesets.len()
            invariant
                tilesets@ == self.tilesets@,
                name == self.name,
                tile_size == self.tile_size,
                layers == self.layers,
                i <= tilesets@.len(),
                forall|k: int|
                    0 <= k < i ==> (#[trigger] tilesets@[k]).path@ != tileset_link.path@,
            decreases tilesets@.len() - i,
        {
            if tilesets[i].path == tileset_link.path {
                tilesets.set(i, tileset_link);
                return Self { name, tilesets, tile_size, layers };
            }
            i = i + 1;
        }

        tilesets.push(tileset_link);
        Self { name, tilesets, tile_size, layers }
    }

    /// Removes the first link with the path; a no-op when the path is
    /// absent.
    pub fn remove_tileset(self, path: &str) -> (r: Self)
        ensures
            r.name == self.name,
            r.tile_size == self.tile_size,
            r.layers == self.layers,
            (forall|i: int|
                0 <= i < self.tilesets@.len() ==> (#[trigger] self.tilesets@[i]).path@ != path@)
                ==> r.tilesets@ == self.tilesets@,
            forall|j: int|
                (0 <= j < self.tilesets@.len() && (#[trigger] self.tilesets@[j]).path@ == path@
                    && (forall|k: int|
                    0 <= k < j ==> (#[trigger] self.tilesets@[k]).path@ != path@))
                    ==> r.tilesets@ == self.tilesets@.remove(j),
    {
        let TilemapDefinitionBuilder { name, mut tilesets, tile_size, layers } = self;
        let path_owned = path.to_owned();
        let mut i: usize = 0;
        while i < tilesets.len()
            invariant
                tilesets@ == self.tilesets@,
                name == self.name,
                tile_size == self.tile_size,
                layers == self.layers,
                path_owned@ == path@,
                i <= tilesets@.len(),
                forall|k: int| 0 <= k < i ==> (#[trigger] tilesets@[k]).path@ != path@,
            decreases tilesets@.len() - i,
        {
            if tilesets[i].path == path_owned {
                tilesets.remove(i);
                return Self { name, tilesets, tile_size, layers };
            }
            i = i + 1;
        }

        Self { name, tilesets, tile_size, layers }
    }

    /// Upserts the layer by ordering key: replaces the first layer with the
    /// same key in place, or appends when the key is new.
    pub fn add_layer(self, layer_def: LayerDefinition) -> (r: Self)
        ensures
            r.name == self.name,
            r.tile_size == self.tile_size,
            r.tilesets == self.tilesets,
            (forall|i: int|
                0 <= i < self.layers@.len() ==> (#[trigger] self.layers@[i]).ordering_id
                    != layer_def.ordering_id) ==> r.layers@ == self.layers@.push(layer_def),
            forall|j: int|
                (0 <= j < self.layers@.len() && (#[trigger] self.layers@[j]).ordering_id
                    == layer_def.ordering_id && (forall|k: int|
                    0 <= k < j ==> (#[trigger] self.layers@[k]).ordering_id
                        != layer_def.ordering_id)) ==> r.layers@ == self.layers@.update(
                    j,
                    layer_def,
                ),
    {
        let TilemapDefinitionBuilder { name, tilesets, tile_size, mut layers } = self;
        let mut i: usize = 0;
        while i < layers.len()
            invariant
                layers@ == self.layers@,
                name == self.name,
                tile_size == self.tile_size,
                tilesets == self.tilesets,
                i <= layers@.len(),
                forall|k: int|
                    0 <= k < i ==> (#[trigger] layers@[k]).ordering_id != layer_def.ordering_id,
            decreases layers@.len() - i,
        {
            if layers[i].ordering_id == layer_def.ordering_id {
                layers.set(i, layer_def);
                return Self { name, tilesets, tile_size, layers };
            }
            i = i + 1;
        }

        layers.push(layer_def);
        Self { name, tilesets, tile_size, layers }
    }

    /// Removes the first layer with the ordering key; a no-op when the key
    /// is absent.
    pub fn remove_layer(self, ordering_id: u32) -> (r: Self)
        ensures
            r.name == self.name,
            r.tile_size == self.tile_size,
            r.tilesets == self.tilesets,
            (forall|i: int|
                0 <= i < self.layers@.len() ==> (#[trigger] self.layers@[i]).ordering_id
                    != ordering_id) ==> r.layers@ == self.layers@,
            forall|j: int|
                (0 <= j < self.layers@.len() && (#[trigger] self.layers@[j]).ordering_id
                    == ordering_id && (forall|k: int|
                    0 <= k < j ==> (#[trigger] self.layers@[k]).ordering_id != ordering_id))
                    ==> r.layers@ == self.layers@.remove(j),
    {
        let TilemapDefinitionBuilder { name, tilesets, tile_size, mut layers } = self;
        let mut i: usize = 0;
        while i < layers.len()
            invariant
                layers@ == self.layers@,
                name == self.name,
                tile_size == self.tile_size,
                tilesets == self.tilesets,
                i <= layers@.len(),
                forall|k: int| 0 <= k < i ==> (#[trigger] layers@[k]).ordering_id != ordering_id,
            decreases layers@.len() - i,
        {
            if layers[i].ordering_id == ordering_id {
                layers.remove(i);
                return Self { name, tilesets, tile_size, layers };
            }
            i = i + 1;
        }

        Self { name, tilesets, tile_size, layers }
    }

    /// The accumulated tilemap, with the set tile size or the 16 by 16
    /// default. No cross-validation is performed: every accumulated state
    /// builds.
    pub fn build(self) -> (r: TilemapDefinition)
        ensures
            r.name == self.name,
            r.tilesets == self.tilesets,
            r.layers == self.layers,
            match self.tile_size {
                Some(t) => r.tile_size == t,
                None => r.tile_size == (TileSize { width: 16, height: 16 }),
            },
    {
        let tile_size = match self.tile_size {
            Some(ts) => ts,
            None => TileSize::new(16, 16),
        };

        TilemapDefinition {
            name: self.name,
            tilesets: self.tilesets,
            tile_size,
            layers: self.layers,
        }
    }
}

} // verus!
