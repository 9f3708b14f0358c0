//! Tileset definitions: a catalog of standard and animated tiles drawn from
//! one source image, built through a validating builder. The builder upserts
//! tiles by id, and `build` rejects duplicate tile ids, duplicate positions
//! among standard tiles, and sources from which no name can be derived.

use vstd::prelude::*;

use crate::rat::Rat;

verus! {

/// The size of a single tile of the source image, in pixels.
#[derive(Debug, Copy, Clone, PartialEq, Eq, Structural, Default)]
pub struct TileSize {
    pub width: usize,
    pub height: usize,
}

/// One cell of the source atlas, in tile units.
#[derive(Debug, Copy, Clone, PartialEq, Eq, Structural)]
pub struct TilePosition {
    pub x: usize,
    pub y: usize,
}

/// Pixel dimensions of the source image.
#[derive(Debug, Copy, Clone, PartialEq, Eq, Structural)]
pub struct ImageDimensions {
    pub width: usize,
    pub height: usize,
}

/// The source image a tileset draws from: its path and pixel dimensions.
#[derive(Debug, Clone, PartialEq)]
pub struct SourceDefinition {
    pub path: String,
    pub dimensions: ImageDimensions,
}

/// One selectable tile: either a fixed source-atlas cell, or an animation
/// cycling through a sequence of cells at a fixed interval.
#[derive(Debug, Clone, PartialEq)]
pub enum TileDefinition {
    Standard { id: u32, x: usize, y: usize },
    Animated { id: u32, positions: Vec<TilePosition>, interval_per_sec: Rat },
}

/// A validated, immutable tileset: name, tile size, source image, and tile
/// catalog. Built only through [`TilesetDefinitionBuilder`], which enforces
/// the uniqueness invariants at construction time.
#[derive(Debug, Clone, PartialEq)]
pub struct TilesetDefinition {
    pub name: String,
    pub tile_size: TileSize,
    pub source: SourceDefinition,
    pub tiles: Vec<TileDefinition>,
}

/// Why a tileset failed to build.
#[derive(Debug, Clone, PartialEq)]
pub enum Error {
    /// No explicit name was set and the source path has no file-name
    /// component to derive one from.
    InvalidName,
    /// Ids that occur at least twice in the tile list, each with its count.
    DuplicatedTileIds(Vec<(u32, u32)>),
    /// Atlas cells occupied by at least two standard tiles, each with the
    /// ids of the tiles at that cell.
    DuplicatedTilePositions(Vec<((usize, usize), Vec<u32>)>),
    /// Declared for tiles whose cell lies outside the source image; this
    /// validation is not performed yet, so it is never returned.
    TileOutOfBounds(u32),
}

/// Accumulates tiles and metadata, then validates them into a
/// [`TilesetDefinition`]. Consumed by `build`.
#[derive(Debug, Clone, PartialEq)]
pub struct TilesetDefinitionBuilder {
    pub source: SourceDefinition,
    pub tile_size: Option<TileSize>,
    pub name: Option<String>,
    pub tiles: Vec<TileDefinition>,
}

/// Accumulates the frames of one animated tile.
#[derive(Debug, Clone, PartialEq)]
pub struct AnimatedTileDefBuilder {
    pub id: u32,
    pub intervals: Rat,
    pub positions: Vec<TilePosition>,
}

/// The id of a tile, common to both variants.
pub open spec fn spec_id(t: TileDefinition) -> u32 {
    match t {
        TileDefinition::Standard { id, .. } => id,
        TileDefinition::Animated { id, .. } => id,
    }
}

/// The atlas cell of a standard tile; animated tiles have none.
pub open spec fn spec_standard_pos(t: TileDefinition) -> Option<(usize, usize)> {
    match t {
        TileDefinition::Standard { id, x, y } => Some((x, y)),
        TileDefinition::Animated { .. } => None,
    }
}

impl TilePosition {
    pub fn new(x: usize, y: usize) -> (r: Self)
        ensures
            r == (TilePosition { x, y }),
    {
        Self { x, y }
    }
}

impl ImageDimensions {
    pub fn new(width: usize, height: usize) -> (r: Self)
        ensures
            r == (ImageDimensions { width, height }),
    {
        Self { height, width }
    }

    pub fn height(&self) -> (r: usize)
        ensures
            r == self.height,
    {
        self.height
    }

    pub fn width(&self) -> (r: usize)
        ensures
            r == self.width,
    {
        self.width
    }
}

impl SourceDefinition {
    pub fn new(path: &str, dimensions: ImageDimensions) -> (r: Self)
        ensures
            r.path@ == path@,
            r.dimensions == dimensions,
    {
        Self { path: path.to_owned(), dimensions }
    }

    pub open spec fn spec_path(&self) -> Seq<char> {
        self.path@
    }

    pub fn path(&self) -> (r: &str)
        ensures
            r@ == self.path@,
    {
        self.path.as_str()
    }

    pub fn dimensions(&self) -> (r: ImageDimensions)
        ensures
            r == self.dimensions,
    {
        self.dimensions
    }
}

impl TileSize {
    pub fn new(width: usize, height: usize) -> (r: Self)
        ensures
            r == (TileSize { width, height }),
    {
        Self { width, height }
    }

    pub fn width(&self) -> (r: usize)
        ensures
            r == self.width,
    {
        self.width
    }

    pub fn height(&self) -> (r: usize)
        ensures
            r == self.height,
    {
        self.height
    }
}

impl TileDefinition {
    pub fn new_standard(id: u32, x: usize, y: usize) -> (r: Self)
        ensures
            r == (TileDefinition::Standard { id, x, y }),
    {
        Self::Standard { id, x, y }
    }

    /// A fresh animated tile with no frames yet.
    pub fn new_animated(id: u32, interval: Rat) -> (r: Self)
        ensures
            r matches TileDefinition::Animated { id: rid, positions, interval_per_sec }
                && rid == id && positions@.len() == 0 && interval_per_sec == interval,
            spec_id(r) == id,
    {
        Self::Animated { id, interval_per_sec: interval, positions: Vec::new() }
    }

    pub fn id(&self) -> (r: u32)
        ensures
            r == spec_id(*self),
    {
        match self {
            Self::Standard { id, x: _, y: _ } => *id,
            Self::Animated { id, interval_per_sec: _, positions: _ } => *id,
        }
    }

    pub fn is_standard(&self) -> (r: bool)
        ensures
            r == (self is Standard),
    {
        match self {
            TileDefinition::Standard { .. } => true,
            TileDefinition::Animated { .. } => false,
        }
    }

    pub fn is_animated(&self) -> (r: bool)
        ensures
            r == (self is Animated),
    {
        match self {
            TileDefinition::Standard { .. } => false,
            TileDefinition::Animated { .. } => true,
        }
    }
}

impl TilesetDefinition {
    pub fn name(&self) -> (r: &str)
        ensures
            r@ == self.name@,
    {
        self.name.as_str()
    }

    pub fn tile_size(&self) -> (r: TileSize)
        ensures
            r == self.tile_size,
    {
        self.tile_size
    }

    pub fn source(&self) -> (r: &SourceDefinition)
        ensures
            r == &self.source,
    {
        &self.source
    }

    pub fn tiles(&self) -> (r: &Vec<TileDefinition>)
        ensures
            r == &self.tiles,
    {
        &self.tiles
    }
}

/// How many of the first `n` tiles carry the id.
pub open spec fn count_id_upto(tiles: Seq<TileDefinition>, id: u32, n: int) -> int
    decreases n,
{
    if n <= 0 {
        0
    } else {
        count_id_upto(tiles, id, n - 1) + if spec_id(tiles[n - 1]) == id {
            1int
        } else {
            0int
        }
    }
}

/// How many tiles carry the id.
pub open spec fn count_id(tiles: Seq<TileDefinition>, id: u32) -> int {
    count_id_upto(tiles, id, tiles.len() as int)
}

/// No earlier tile has the same id as the tile at `i`.
pub open spec fn first_with_id(tiles: Seq<TileDefinition>, i: int) -> bool {
    forall|k: int| 0 <= k < i ==> spec_id(#[trigger] tiles[k]) != spec_id(tiles[i])
}

/// The `(id, count)` pairs of ids that occur at least twice among the first
/// `n` tiles' first occurrences, in order of first occurrence; counts range
/// over the whole list.
pub open spec fn dup_id_pairs_upto(tiles: Seq<TileDefinition>, n: int) -> Seq<(u32, u32)>
    decreases n,
{
    if n <= 0 {
        Seq::empty()
    } else {
        let p = dup_id_pairs_upto(tiles, n - 1);
        let id = spec_id(tiles[n - 1]);
        if first_with_id(tiles, n - 1) && count_id(tiles, id) >= 2 {
            p.push((id, count_id(tiles, id) as u32))
        } else {
            p
        }
    }
}

/// The `(id, count)` pairs of ids that occur at least twice, in order of
/// first occurrence.
pub open spec fn dup_id_pairs(tiles: Seq<TileDefinition>) -> Seq<(u32, u32)> {
    dup_id_pairs_upto(tiles, tiles.len() as int)
}

/// The ids of the standard tiles at cell `(x, y)` among the first `n`
/// tiles, in list order.
pub open spec fn ids_at_upto(tiles: Seq<TileDefinition>, x: usize, y: usize, n: int) -> Seq<u32>
    decreases n,
{
    if n <= 0 {
        Seq::empty()
    } else {
        let p = ids_at_upto(tiles, x, y, n - 1);
        if spec_standard_pos(tiles[n - 1]) == Some((x, y)) {
            p.push(spec_id(tiles[n - 1]))
        } else {
            p
        }
    }
}

/// The ids of the standard tiles at cell `(x, y)`, in list order.
pub open spec fn ids_at(tiles: Seq<TileDefinition>, x: usize, y: usize) -> Seq<u32> {
    ids_at_upto(tiles, x, y, tiles.len() as int)
}

/// The tile at `i` is standard and no earlier standard tile sits at its cell.
pub open spec fn first_standard_at(tiles: Seq<TileDefinition>, i: int) -> bool {
    &&& tiles[i] is Standard
    &&& forall|k: int|
        0 <= k < i ==> spec_standard_pos(#[trigger] tiles[k]) != spec_standard_pos(tiles[i])
}

/// The `((x, y), ids)` groups of cells occupied by at least two standard
/// tiles among the first `n` tiles' first occurrences, in order of first
/// occurrence; the id lists range over the whole list. Animated tiles are
/// exempt: they occupy no cell here.
pub open spec fn dup_pos_groups_upto(tiles: Seq<TileDefinition>, n: int) -> Seq<
    ((usize, usize), Seq<u32>),
>
    decreases n,
{
    if n <= 0 {
        Seq::empty()
    } else {
        let p = dup_pos_groups_upto(tiles, n - 1);
        match spec_standard_pos(tiles[n - 1]) {
            Some(pos) => {
                if first_standard_at(tiles, n - 1) && ids_at(tiles, pos.0, pos.1).len() >= 2 {
                    p.push((pos, ids_at(tiles, pos.0, pos.1)))
                } else {
                    p
                }
            },
            None => p,
        }
    }
}

/// The `((x, y), ids)` groups of cells occupied by at least two standard
/// tiles, in order of first occurrence.
pub open spec fn dup_pos_groups(tiles: Seq<TileDefinition>) -> Seq<((usize, usize), Seq<u32>)> {
    dup_pos_groups_upto(tiles, tiles.len() as int)
}

/// The built duplicate-position payload carries exactly the groups: the
/// same cells in the same order, each with the same ids.
pub open spec fn pos_payload_matches(
    v: Seq<((usize, usize), Vec<u32>)>,
    groups: Seq<((usize, usize), Seq<u32>)>,
) -> bool {
    &&& v.len() == groups.len()
    &&& forall|i: int|
        0 <= i < v.len() ==> (#[trigger] v[i]).0 == groups[i].0 && v[i].1@ == groups[i].1
}

proof fn lemma_count_nonneg(tiles: Seq<TileDefinition>, id: u32, n: int)
    ensures
        count_id_upto(tiles, id, n) >= 0,
    decreases n,
{
    if n > 0 {
        lemma_count_nonneg(tiles, id, n - 1);
    }
}

proof fn lemma_count_mono(tiles: Seq<TileDefinition>, id: u32, m: int, n: int)
    requires
        m <= n,
    ensures
        count_id_upto(tiles, id, m) <= count_id_upto(tiles, id, n),
    decreases n - m,
{
    if m < n {
        lemma_count_mono(tiles, id, m, n - 1);
    }
}

/// Two distinct indices with one id put its count at two or more.
proof fn lemma_two_make_count_two(tiles: Seq<TileDefinition>, i: int, j: int)
    requires
        0 <= i < j < tiles.len(),
        spec_id(tiles[i]) == spec_id(tiles[j]),
    ensures
        count_id(tiles, spec_id(tiles[i])) >= 2,
{
    let id = spec_id(tiles[i]);
    lemma_count_nonneg(tiles, id, i);
    lemma_count_mono(tiles, id, i + 1, j);
    lemma_count_mono(tiles, id, j + 1, tiles.len() as int);
}

proof fn lemma_count_zero(tiles: Seq<TileDefinition>, id: u32, n: int)
    requires
        forall|k: int| 0 <= k < n ==> spec_id(#[trigger] tiles[k]) != id,
    ensures
        count_id_upto(tiles, id, n) == 0,
    decreases n,
{
    if n > 0 {
        lemma_count_zero(tiles, id, n - 1);
    }
}

/// When no two of the first `n` tiles share the id, it is counted at most
/// once among them.
proof fn lemma_count_le_one(tiles: Seq<TileDefinition>, id: u32, n: int)
    requires
        n <= tiles.len(),
        forall|a: int, b: int|
            0 <= a < b < n ==> !(spec_id(#[trigger] tiles[a]) == id && spec_id(
                #[trigger] tiles[b],
            ) == id),
    ensures
        count_id_upto(tiles, id, n) <= 1,
    decreases n,
{
    if n > 0 {
        lemma_count_le_one(tiles, id, n - 1);
        if spec_id(tiles[n - 1]) == id {
            assert(forall|k: int| 0 <= k < n - 1 ==> spec_id(#[trigger] tiles[k]) != id);
            lemma_count_zero(tiles, id, n - 1);
        }
    }
}

/// Every index has a first occurrence of its id at or before it.
proof fn lemma_first_occurrence(tiles: Seq<TileDefinition>, i: int)
    requires
        0 <= i < tiles.len(),
    ensures
        exists|i0: int|
            0 <= i0 <= i && spec_id(#[trigger] tiles[i0]) == spec_id(tiles[i]) && first_with_id(
                tiles,
                i0,
            ),
    decreases i,
{
    if first_with_id(tiles, i) {
        assert(0 <= i <= i && spec_id(tiles[i]) == spec_id(tiles[i]) && first_with_id(tiles, i));
    } else {
        let k = choose|k: int| 0 <= k < i && spec_id(#[trigger] tiles[k]) == spec_id(tiles[i]);
        lemma_first_occurrence(tiles, k);
        let i0 = choose|i0: int|
            0 <= i0 <= k && spec_id(#[trigger] tiles[i0]) == spec_id(tiles[k]) && first_with_id(
                tiles,
                i0,
            );
        assert(0 <= i0 <= i && spec_id(tiles[i0]) == spec_id(tiles[i]) && first_with_id(
            tiles,
            i0,
        ));
    }
}

proof fn lemma_dup_pairs_len_mono(tiles: Seq<TileDefinition>, m: int, n: int)
    requires
        m <= n,
    ensures
        dup_id_pairs_upto(tiles, m).len() <= dup_id_pairs_upto(tiles, n).len(),
    decreases n - m,
{
    if m < n {
        lemma_dup_pairs_len_mono(tiles, m, n - 1);
    }
}

proof fn lemma_dup_pairs_empty_when_unique(tiles: Seq<TileDefinition>, n: int)
    requires
        n <= tiles.len(),
        forall|i: int, j: int|
            0 <= i < j < tiles.len() ==> spec_id(#[trigger] tiles[i]) != spec_id(
                #[trigger] tiles[j],
            ),
    ensures
        dup_id_pairs_upto(tiles, n).len() == 0,
    decreases n,
{
    if n > 0 {
        lemma_dup_pairs_empty_when_unique(tiles, n - 1);
        let id = spec_id(tiles[n - 1]);
        lemma_count_le_one(tiles, id, tiles.len() as int);
    }
}

/// The duplicate-id report is empty exactly when no two tiles share an id:
/// `build` fails with `DuplicatedTileIds` if and only if some id occurs
/// twice.
pub proof fn lemma_duplicate_ids_iff(tiles: Seq<TileDefinition>)
    ensures
        dup_id_pairs(tiles).len() == 0 <==> (forall|i: int, j: int|
            0 <= i < j < tiles.len() ==> spec_id(#[trigger] tiles[i]) != spec_id(
                #[trigger] tiles[j],
            )),
{
    if forall|i: int, j: int|
        0 <= i < j < tiles.len() ==> spec_id(#[trigger] tiles[i]) != spec_id(
            #[trigger] tiles[j],
        ) {
        lemma_dup_pairs_empty_when_unique(tiles, tiles.len() as int);
    }
    if !(forall|i: int, j: int|
        0 <= i < j < tiles.len() ==> spec_id(#[trigger] tiles[i]) != spec_id(
            #[trigger] tiles[j],
        )) {
        let (i, j) = choose|i: int, j: int|
            0 <= i < j < tiles.len() && spec_id(#[trigger] tiles[i]) == spec_id(
                #[trigger] tiles[j],
            );
        lemma_first_occurrence(tiles, i);
        let i0 = choose|i0: int|
            0 <= i0 <= i && spec_id(#[trigger] tiles[i0]) == spec_id(tiles[i]) && first_with_id(
                tiles,
                i0,
            );
        lemma_two_make_count_two(tiles, i, j);
        assert(dup_id_pairs_upto(tiles, i0 + 1).len() >= 1);
        lemma_dup_pairs_len_mono(tiles, i0 + 1, tiles.len() as int);
    }
}

proof fn lemma_ids_at_len_mono(tiles: Seq<TileDefinition>, x: usize, y: usize, m: int, n: int)
    requires
        m <= n,
    ensures
        ids_at_upto(tiles, x, y, m).len() <= ids_at_upto(tiles, x, y, n).len(),
    decreases n - m,
{
    if m < n {
        lemma_ids_at_len_mono(tiles, x, y, m, n - 1);
    }
}

/// Two distinct standard tiles at one cell put at least two ids there.
proof fn lemma_two_make_ids_two(tiles: Seq<TileDefinition>, i: int, j: int, x: usize, y: usize)
    requires
        0 <= i < j < tiles.len(),
        spec_standard_pos(tiles[i]) == Some((x, y)),
        spec_standard_pos(tiles[j]) == Some((x, y)),
    ensures
        ids_at(tiles, x, y).len() >= 2,
{
    lemma_ids_at_len_mono(tiles, x, y, i + 1, j);
    lemma_ids_at_len_mono(tiles, x, y, j + 1, tiles.len() as int);
}

proof fn lemma_ids_at_empty(tiles: Seq<TileDefinition>, x: usize, y: usize, n: int)
    requires
        forall|k: int| 0 <= k < n ==> spec_standard_pos(#[trigger] tiles[k]) != Some((x, y)),
    ensures
        ids_at_upto(tiles, x, y, n).len() == 0,
    decreases n,
{
    if n > 0 {
        lemma_ids_at_empty(tiles, x, y, n - 1);
    }
}

proof fn lemma_ids_at_le_one(tiles: Seq<TileDefinition>, x: usize, y: usize, n: int)
    requires
        n <= tiles.len(),
        forall|a: int, b: int|
            0 <= a < b < n ==> !(spec_standard_pos(#[trigger] tiles[a]) == Some((x, y))
                && spec_standard_pos(#[trigger] tiles[b]) == Some((x, y))),
    ensures
        ids_at_upto(tiles, x, y, n).len() <= 1,
    decreases n,
{
    if n > 0 {
        lemma_ids_at_le_one(tiles, x, y, n - 1);
        if spec_standard_pos(tiles[n - 1]) == Some((x, y)) {
            assert(forall|k: int|
                0 <= k < n - 1 ==> spec_standard_pos(#[trigger] tiles[k]) != Some((x, y)));
            lemma_ids_at_empty(tiles, x, y, n - 1);
        }
    }
}

/// Every standard tile has a first standard tile at its cell at or before it.
proof fn lemma_first_standard_occurrence(tiles: Seq<TileDefinition>, i: int)
    requires
        0 <= i < tiles.len(),
        tiles[i] is Standard,
    ensures
        exists|i0: int|
            0 <= i0 <= i && spec_standard_pos(#[trigger] tiles[i0]) == spec_standard_pos(
                tiles[i],
            ) && first_standard_at(tiles, i0),
    decreases i,
{
    if first_standard_at(tiles, i) {
        assert(0 <= i <= i && spec_standard_pos(tiles[i]) == spec_standard_pos(tiles[i])
            && first_standard_at(tiles, i));
    } else {
        let k = choose|k: int|
            0 <= k < i && spec_standard_pos(#[trigger] tiles[k]) == spec_standard_pos(tiles[i]);
        assert(tiles[k] is Standard);
        lemma_first_standard_occurrence(tiles, k);
        let i0 = choose|i0: int|
            0 <= i0 <= k && spec_standard_pos(#[trigger] tiles[i0]) == spec_standard_pos(
                tiles[k],
            ) && first_standard_at(tiles, i0);
        assert(0 <= i0 <= i && spec_standard_pos(tiles[i0]) == spec_standard_pos(tiles[i])
            && first_standard_at(tiles, i0));
    }
}

proof fn lemma_dup_groups_len_mono(tiles: Seq<TileDefinition>, m: int, n: int)
    requires
        m <= n,
    ensures
        dup_pos_groups_upto(tiles, m).len() <= dup_pos_groups_upto(tiles, n).len(),
    decreases n - m,
{
    if m < n {
        lemma_dup_groups_len_mono(tiles, m, n - 1);
    }
}

proof fn lemma_dup_groups_empty_when_unique(tiles: Seq<TileDefinition>, n: int)
    requires
        n <= tiles.len(),
        forall|i: int, j: int|
            0 <= i < j < tiles.len() ==> !(spec_standard_pos(#[trigger] tiles[i]) is Some
                && spec_standard_pos(tiles[i]) == spec_standard_pos(#[trigger] tiles[j])),
    ensures
        dup_pos_groups_upto(tiles, n).len() == 0,
    decreases n,
{
    if n > 0 {
        lemma_dup_groups_empty_when_unique(tiles, n - 1);
        match spec_standard_pos(tiles[n - 1]) {
            Some(pos) => {
                lemma_ids_at_le_one(tiles, pos.0, pos.1, tiles.len() as int);
            },
            None => {},
        }
    }
}

/// The duplicate-position report is empty exactly when no two standard
/// tiles occupy one cell: `build` fails with `DuplicatedTilePositions` if
/// and only if some cell holds two standard tiles. Animated tiles are
/// exempt from this check.
pub proof fn lemma_duplicate_positions_iff(tiles: Seq<TileDefinition>)
    ensures
        dup_pos_groups(tiles).len() == 0 <==> (forall|i: int, j: int|
            0 <= i < j < tiles.len() ==> !(spec_standard_pos(#[trigger] tiles[i]) is Some
                && spec_standard_pos(tiles[i]) == spec_standard_pos(#[trigger] tiles[j]))),
{
    if forall|i: int, j: int|
        0 <= i < j < tiles.len() ==> !(spec_standard_pos(#[trigger] tiles[i]) is Some
            && spec_standard_pos(tiles[i]) == spec_standard_pos(#[trigger] tiles[j])) {
        lemma_dup_groups_empty_when_unique(tiles, tiles.len() as int);
    }
    if !(forall|i: int, j: int|
        0 <= i < j < tiles.len() ==> !(spec_standard_pos(#[trigger] tiles[i]) is Some
            && spec_standard_pos(tiles[i]) == spec_standard_pos(#[trigger] tiles[j]))) {
        let (i, j) = choose|i: int, j: int|
            0 <= i < j < tiles.len() && spec_standard_pos(#[trigger] tiles[i]) is Some
                && spec_standard_pos(tiles[i]) == spec_standard_pos(#[trigger] tiles[j]);
        let pos = spec_standard_pos(tiles[i])->Some_0;
        lemma_first_standard_occurrence(tiles, i);
        let i0 = choose|i0: int|
            0 <= i0 <= i && spec_standard_pos(#[trigger] tiles[i0]) == spec_standard_pos(
                tiles[i],
            ) && first_standard_at(tiles, i0);
        lemma_two_make_ids_two(tiles, i, j, pos.0, pos.1);
        assert(dup_pos_groups_upto(tiles, i0 + 1).len() >= 1);
        lemma_dup_groups_len_mono(tiles, i0 + 1, tiles.len() as int);
    }
}

impl TilesetDefinitionBuilder {
    /// A fresh builder for a tileset drawn from `source`, with no name, no
    /// tile size, and no tiles yet.
    pub fn new(source: SourceDefinition) -> (r: Self)
        ensures
            r.source == source,
            r.name is None,
            r.tile_size is None,
            r.tiles@.len() == 0,
    {
        Self { name: None, source, tile_size: None, tiles: Vec::new() }
    }

    pub fn with_name(self, name: &str) -> (r: Self)
        ensures
            r.source == self.source,
            r.tile_size == self.tile_size,
            r.tiles == self.tiles,
            r.name matches Some(n) && n@ == name@,
    {
        Self { name: Some(name.to_owned()), ..self }
    }

    pub fn with_tile_size(self, width: usize, height: usize) -> (r: Self)
        ensures
            r.source == self.source,
            r.name == self.name,
            r.tiles == self.tiles,
            r.tile_size == Some(TileSize { width, height }),
    {
        Self { tile_size: Some(TileSize::new(width, height)), ..self }
    }

    pub fn with_source(self, source: SourceDefinition) -> (r: Self)
        ensures
            r.source == source,
            r.name == self.name,
            r.tiles == self.tiles,
            r.tile_size == self.tile_size,
    {
        Self { source, ..self }
    }

    /// Upserts `tile` by id: replaces the first tile with the same id in
    /// place, or appends when the id is new.
    pub fn add_tile(self, tile: TileDefinition) -> (r: Self)
        ensures
            r.source == self.source,
            r.tile_size == self.tile_size,
            r.name == self.name,
            (forall|i: int|
                0 <= i < self.tiles@.len() ==> spec_id(#[trigger] self.tiles@[i]) != spec_id(
                    tile,
                )) ==> r.tiles@ == self.tiles@.push(tile),
            forall|j: int|
                (0 <= j < self.tiles@.len() && spec_id(#[trigger] self.tiles@[j]) == spec_id(tile)
                    && (forall|k: int|
                    0 <= k < j ==> spec_id(#[trigger] self.tiles@[k]) != spec_id(tile)))
                    ==> r.tiles@ == self.tiles@.update(j, tile),
    {
        let TilesetDefinitionBuilder { source, tile_size, name, mut tiles } = self;
        let id = tile.id();
        let mut i: usize = 0;
        while i < tiles.len()
            invariant
                tiles@ == self.tiles@,
                source == self.source,
                tile_size == self.tile_size,
                name == self.name,
                i <= tiles@.len(),
                id == spec_id(tile),
                forall|k: int| 0 <= k < i ==> spec_id(#[trigger] tiles@[k]) != id,
            decreases tiles@.len() - i,
        {
            if tiles[i].id() == id {
                tiles.set(i, tile);
                return Self { source, tile_size, name, tiles };
            }
            i = i + 1;
        }

        tiles.push(tile);
        Self { source, tile_size, name, tiles }
    }

    /// Removes the first tile with the id; a no-op when the id is absent.
    pub fn remove_tile(self, id: u32) -> (r: Self)
        ensures
            r.source == self.source,
            r.tile_size == self.tile_size,
            r.name == self.name,
            (forall|i: int|
                0 <= i < self.tiles@.len() ==> spec_id(#[trigger] self.tiles@[i]) != id)
                ==> r.tiles@ == self.tiles@,
            forall|j: int|
                (0 <= j < self.tiles@.len() && spec_id(#[trigger] self.tiles@[j]) == id && (
                forall|k: int| 0 <= k < j ==> spec_id(#[trigger] self.tiles@[k]) != id))
                    ==> r.tiles@ == self.tiles@.remove(j),
    {
        let TilesetDefinitionBuilder { source, tile_size, name, mut tiles } = self;
        let mut i: usize = 0;
        while i < tiles.len()
            invariant
                tiles@ == self.tiles@,
                source == self.source,
                tile_size == self.tile_size,
                name == self.name,
                i <= tiles@.len(),
                forall|k: int| 0 <= k < i ==> spec_id(#[trigger] tiles@[k]) != id,
            decreases tiles@.len() - i,
        {
            if tiles[i].id() == id {
                tiles.remove(i);
                return Self { source, tile_size, name, tiles };
            }
            i = i + 1;
        }

        Self { source, tile_size, name, tiles }
    }

    /// Validates the accumulated tiles and produces the immutable tileset.
    /// In order: ids occurring twice or more fail with `DuplicatedTileIds`;
    /// then cells holding two or more standard tiles fail with
    /// `DuplicatedTilePositions`; then, when no explicit name was set and
    /// none can be derived from the source path, `InvalidName`. Otherwise
    /// the tileset is the accumulated tiles, the set or derived name, and
    /// the set tile size or the 16 by 16 default.
    pub fn build(self) -> (r: Result<TilesetDefinition, Error>)
        requires
            self.tiles@.len() <= u32::MAX,
        ensures
            match r {
                Result::Err(Error::DuplicatedTileIds(v)) => {
                    &&& v@ == dup_id_pairs(self.tiles@)
                    &&& v@.len() > 0
                },
                Result::Err(Error::DuplicatedTilePositions(v)) => {
                    &&& dup_id_pairs(self.tiles@).len() == 0
                    &&& pos_payload_matches(v@, dup_pos_groups(self.tiles@))
                    &&& v@.len() > 0
                },
                Result::Err(Error::InvalidName) => {
                    &&& dup_id_pairs(self.tiles@).len() == 0
                    &&& dup_pos_groups(self.tiles@).len() == 0
                    &&& self.name is None
                    &&& crate::text::spec_file_name(self.source.path@) is None
                },
                Result::Err(Error::TileOutOfBounds(_)) => false,
                Result::Ok(def) => {
                    &&& dup_id_pairs(self.tiles@).len() == 0
                    &&& dup_pos_groups(self.tiles@).len() == 0
                    &&& def.tiles == self.tiles
                    &&& def.source == self.source
                    &&& match self.tile_size {
                        Some(t) => def.tile_size == t,
                        None => def.tile_size == (TileSize { width: 16, height: 16 }),
                    }
                    &&& match self.name {
                        Some(n) => def.name == n,
                        None => crate::text::spec_file_name(self.source.path@) == Some(
                            def.name@,
                        ),
                    }
                },
            },
    {
        let duplicated_ids = Self::get_duplicated_ids(&self.tiles);

        if duplicated_ids.len() != 0 {
            return Err(Error::DuplicatedTileIds(duplicated_ids));
        }

        let duplicated_positions = Self::get_duplicated_positions(&self.tiles);

        if duplicated_positions.len() != 0 {
            return Err(Error::DuplicatedTilePositions(duplicated_positions));
        }

        let name = match self.name {
            Some(n) => n,
            None => match crate::text::file_name_of(self.source.path.as_str()) {
                Some(n) => n,
                None => {
                    return Err(Error::InvalidName);
                },
            },
        };

        let tile_size = match self.tile_size {
            Some(t) => t,
            None => TileSize::new(16, 16),
        };

        Ok(TilesetDefinition { name, source: self.source, tile_size, tiles: self.tiles })
    }

    /// The `(id, count)` pairs of ids that occur at least twice, in order of
    /// first occurrence.
    fn get_duplicated_ids(tiles: &Vec<TileDefinition>) -> (r: Vec<(u32, u32)>)
        requires
            tiles@.len() <= u32::MAX,
        ensures
            r@ == dup_id_pairs(tiles@),
    {
        let mut result: Vec<(u32, u32)> = Vec::new();
        let mut i: usize = 0;
        while i < tiles.len()
            invariant
                tiles@.len() <= u32::MAX,
                i <= tiles@.len(),
                result@ == dup_id_pairs_upto(tiles@, i as int),
            decreases tiles@.len() - i,
        {
            let id = tiles[i].id();
            let mut first = true;
            let mut k: usize = 0;
            while k < i
                invariant
                    k <= i < tiles@.len(),
                    id == spec_id(tiles@[i as int]),
                    first == (forall|m: int|
                        0 <= m < k ==> spec_id(#[trigger] tiles@[m]) != id),
                decreases i - k,
            {
                if tiles[k].id() == id {
                    first = false;
                }
                k = k + 1;
            }
            if first {
                let c = Self::count_tiles_with_id(tiles, id);
                if c >= 2 {
                    result.push((id, c as u32));
                }
            }
            i = i + 1;
        }
        result
    }

    /// How many tiles carry the id.
    fn count_tiles_with_id(tiles: &Vec<TileDefinition>, id: u32) -> (c: usize)
        ensures
            c as int == count_id(tiles@, id),
    {
        let mut c: usize = 0;
        let mut i: usize = 0;
        while i < tiles.len()
            invariant
                i <= tiles@.len(),
                c <= i,
                c as int == count_id_upto(tiles@, id, i as int),
            decreases tiles@.len() - i,
        {
            if tiles[i].id() == id {
                c = c + 1;
            }
            i = i + 1;
        }
        c
    }

    /// The ids of the standard tiles at cell `(x, y)`, in list order.
    fn collect_ids_at(tiles: &Vec<TileDefinition>, x: usize, y: usize) -> (r: Vec<u32>)
        ensures
            r@ == ids_at(tiles@, x, y),
    {
        let mut r: Vec<u32> = Vec::new();
        let mut i: usize = 0;
        while i < tiles.len()
            invariant
                i <= tiles@.len(),
                r@ == ids_at_upto(tiles@, x, y, i as int),
            decreases tiles@.len() - i,
        {
            match &tiles[i] {
                TileDefinition::Standard { id, x: tx, y: ty } => {
                    if *tx == x && *ty == y {
                        r.push(*id);
                    }
                },
                TileDefinition::Animated { .. } => {},
            }
            i = i + 1;
        }
        r
    }

    /// The `((x, y), ids)` groups of cells occupied by at least two
    /// standard tiles, in order of first occurrence.
    fn get_duplicated_positions(tiles: &Vec<TileDefinition>) -> (r: Vec<
        ((usize, usize), Vec<u32>),
    >)
        ensures
            pos_payload_matches(r@, dup_pos_groups(tiles@)),
    {
        let mut result: Vec<((usize, usize), Vec<u32>)> = Vec::new();
        let mut i: usize = 0;
        while i < tiles.len()
            invariant
                i <= tiles@.len(),
                pos_payload_matches(result@, dup_pos_groups_upto(tiles@, i as int)),
            decreases tiles@.len() - i,
        {
            match &tiles[i] {
                TileDefinition::Standard { id: _, x, y } => {
                    let tx = *x;
                    let ty = *y;
                    let mut first = true;
                    let mut k: usize = 0;
                    while k < i
                        invariant
                            k <= i < tiles@.len(),
                            spec_standard_pos(tiles@[i as int]) == Some((tx, ty)),
                            first == (forall|m: int|
                                0 <= m < k ==> spec_standard_pos(#[trigger] tiles@[m]) != Some(
                                    (tx, ty),
                                )),
                        decreases i - k,
                    {
                        match &tiles[k] {
                            TileDefinition::Standard { id: _, x: kx, y: ky } => {
                                if *kx == tx && *ky == ty {
                                    first = false;
                                }
                            },
                            TileDefinition::Animated { .. } => {},
                        }
                        k = k + 1;
                    }
                    if first {
                        let ids = Self::collect_ids_at(tiles, tx, ty);
                        if ids.len() >= 2 {
                            result.push(((tx, ty), ids));
                        }
                    }
                },
                TileDefinition::Animated { .. } => {},
            }
            i = i + 1;
        }
        result
    }
}

impl AnimatedTileDefBuilder {
    /// A fresh builder for the animated tile `id`, with an interval of half
    /// a second per frame until one is set.
    pub fn new(id: u32) -> (r: Self)
        ensures
            r.id == id,
            r.intervals.q() == (crate::rat::Q { n: 1, d: 2 }),
            r.positions@.len() == 0,
    {
        Self { id, intervals: Rat::new(1, 2), positions: Vec::new() }
    }

    pub fn with_interval(self, interval: Rat) -> (r: Self)
        ensures
            r == (AnimatedTileDefBuilder { intervals: interval, ..self }),
    {
        Self { intervals: interval, ..self }
    }

    pub fn with_id(self, id: u32) -> (r: Self)
        ensures
            r == (AnimatedTileDefBuilder { id, ..self }),
    {
        Self { id, ..self }
    }

    pub fn add_position(self, position: TilePosition) -> (r: Self)
        ensures
            r.id == self.id,
            r.intervals == self.intervals,
            r.positions@ == self.positions@.push(position),
    {
        let mut positions = self.positions;
        positions.push(position);
        Self { positions, ..self }
    }

    /// Removes the first accumulated frame equal to the given position; a
    /// no-op when no frame is equal.
    pub fn remove_position(self, position: TilePosition) -> (r: Self)
        ensures
            r.id == self.id,
            r.intervals == self.intervals,
            (forall|i: int|
                0 <= i < self.positions@.len() ==> (#[trigger] self.positions@[i])
                    != position) ==> r.positions@ == self.positions@,
            forall|j: int|
                (0 <= j < self.positions@.len() && (#[trigger] self.positions@[j]) == position
                    && (forall|k: int|
                    0 <= k < j ==> (#[trigger] self.positions@[k]) != position))
                    ==> r.positions@ == self.positions@.remove(j),
    {
        let mut positions = self.positions;
        let mut i: usize = 0;
        while i < positions.len()
            invariant
                positions@ == self.positions@,
                i <= positions@.len(),
                forall|k: int| 0 <= k < i ==> (#[trigger] positions@[k]) != position,
            decreases positions@.len() - i,
        {
            let index_pos = positions[i];
            if index_pos.x == position.x && index_pos.y == position.y {
                positions.remove(i);
                return Self { positions, ..self };
            }
            i = i + 1;
        }

        Self { positions, ..self }
    }

    pub fn clear_positions(self) -> (r: Self)
        ensures
            r.id == self.id,
            r.intervals == self.intervals,
            r.positions@.len() == 0,
    {
        let mut positions = self.positions;
        positions.clear();
        Self { positions, ..self }
    }

    /// The accumulated animated tile.
    pub fn build(self) -> (r: TileDefinition)
        ensures
            r == (TileDefinition::Animated {
                id: self.id,
                positions: self.positions,
                interval_per_sec: self.intervals,
            }),
    {
        TileDefinition::Animated {
            id: self.id,
            positions: self.positions,
            interval_per_sec: self.intervals,
        }
    }
}

} // verus!
