//! The on-disk tilemap asset model: a named grid of tile indices per layer,
//! with the source image and tile pixel size needed to draw it. Reading and
//! writing the serialized form is the host application's concern; this
//! module holds the data and its accessors.

use vstd::prelude::*;

use crate::rat::Rat;

verus! {

/// A tilemap asset: its name, source image, atlas shape, tile size in
/// pixels, and layers of tile indices.
#[derive(Debug, Clone, PartialEq)]
pub struct TilemapFile {
    pub name: String,
    pub source_image: String,
    pub columns: usize,
    pub rows: usize,
    pub tile_height: Rat,
    pub tile_width: Rat,
    pub layers: Vec<LayerDefinition>,
}

/// Single layer definition of the tilemap: its ordering key, name, and grid
/// of tile indices, where a negative one marks an empty cell.
#[derive(Debug, Clone, PartialEq)]
pub struct LayerDefinition {
    pub order_id: usize,
    pub name: String,
    pub tiles: Vec<Vec<i32>>,
}

impl TilemapFile {
    pub fn new(
        name: &str,
        source_image: &str,
        columns: usize,
        rows: usize,
        tile_height: Rat,
        tile_width: Rat,
        layers: Vec<LayerDefinition>,
    ) -> (r: Self)
        ensures
            r.name@ == name@,
            r.source_image@ == source_image@,
            r.columns == columns,
            r.rows == rows,
            r.tile_height == tile_height,
            r.tile_width == tile_width,
            r.layers == layers,
    {
        Self {
            name: name.to_owned(),
            source_image: source_image.to_owned(),
            columns,
            rows,
            tile_height,
            tile_width,
            layers,
        }
    }

    pub fn name(&self) -> (r: &str)
        ensures
            r@ == self.name@,
    {
        self.name.as_str()
    }

    pub fn source_image(&self) -> (r: &str)
        ensures
            r@ == self.source_image@,
    {
        self.source_image.as_str()
    }

    pub fn columns(&self) -> (r: usize)
        ensures
            r == self.columns,
    {
        self.columns
    }

    pub fn rows(&self) -> (r: usize)
        ensures
            r == self.rows,
    {
        self.rows
    }

    pub fn tile_height(&self) -> (r: Rat)
        ensures
            r == self.tile_height,
    {
        self.tile_height
    }

    pub fn tile_width(&self) -> (r: Rat)
        ensures
            r == self.tile_width,
    {
        self.tile_width
    }

    pub fn layers(&self) -> (r: &Vec<LayerDefinition>)
        ensures
            r == &self.layers,
    {
        &self.layers
    }
}

impl LayerDefinition {
    pub fn new(order_id: usize, name: &str, tiles: Vec<Vec<i32>>) -> (r: Self)
        ensures
            r.order_id == order_id,
            r.name@ == name@,
            r.tiles == tiles,
    {
        Self { order_id, name: name.to_owned(), tiles }
    }

    pub fn order_id(&self) -> (r: usize)
        ensures
            r == self.order_id,
    {
        self.order_id
    }

    pub fn name(&self) -> (r: &str)
        ensures
            r@ == self.name@,
    {
        self.name.as_str()
    }

    pub fn tiles(&self) -> (r: &Vec<Vec<i32>>)
        ensures
            r == &self.tiles,
    {
        &self.tiles
    }
}

} // verus!
