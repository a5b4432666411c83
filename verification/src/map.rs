//! The map: a grid of placed tiles, the objects that live on it, and the
//! shapes that seed its collision world.

use vstd::prelude::*;
use std::collections::HashMap;
use crate::arith::{lemma_cell_in_grid, lemma_product_fits};
use crate::object::{spec_whole_units, whole_units, Object, SUBUNITS};
use crate::orientation::{
    add_saturating, decode, object_flipped, rotation_from_angle, saturate, spec_flipped, spec_gid,
    spec_nearest_quarter, spec_normalize, spec_pattern, spec_rotation, split_cell,
};
use crate::animation::spec_shown;
use crate::movement::Fraction;
use crate::tiles::{Tile, Tiles};

verus! {

broadcast use vstd::std_specs::hash::group_hash_axioms;

/// The distance between neighbouring cells where grid tiles are drawn.
pub const DRAW_CELL: i64 = 256;

/// A color in three encoded channels.
#[derive(Clone, Copy, Debug, PartialEq, Eq, Structural)]
pub struct Rgb {
    pub red: u8,
    pub green: u8,
    pub blue: u8,
}

/// An object as the map file describes it.
#[derive(Clone, Copy, Debug, PartialEq, Eq, Structural)]
pub struct ObjectSource {
    /// The global tile id, with the mirror flag in its top bit.
    pub gid: u32,
    /// The anchor that the object was authored at, in sub-units.
    pub x: i64,
    pub y: i64,
    /// The angle that the object was authored at, in sub-units of a degree.
    pub rotation: i64,
}

/// A map as the map file describes it.
#[derive(Debug)]
pub struct MapSource {
    /// The size of the grid, in cells.
    pub width: u32,
    pub height: u32,
    /// The size of a cell, in world units.
    pub tile_width: u32,
    pub tile_height: u32,
    /// The layers from the bottom up, each `height` rows of `width` packed
    /// cells.
    pub layers: Vec<Vec<Vec<u32>>>,
    /// The objects of all object layers, in order.
    pub objects: Vec<ObjectSource>,
    pub background: Option<Rgb>,
}

/// A tile placed in a cell of the grid.
#[derive(Clone, Copy, Debug, PartialEq, Eq, Structural)]
pub struct MapTile {
    pub tile: usize,
    pub rotation: usize,
    pub flipped: bool,
}

/// An object of the map, with the catalog index of its tile.
#[derive(Clone, Copy, Debug, PartialEq, Eq, Structural)]
pub struct MapObject {
    pub tile: usize,
    pub object: Object,
}

/// Why a map was refused.
#[derive(Clone, Copy, Debug, PartialEq, Eq, Structural)]
pub enum MapError {
    /// A layer is not `height` rows of `width` cells.
    RaggedLayer,
    /// The grid has more cells than can be held, or its extent in world
    /// units does not fit the coordinates.
    TooLarge,
    /// An object names a tile that the catalog does not hold.
    UnknownObjectTile,
}

/// The placement that a packed cell stands for: the catalog tile that
/// `lookup` gives for the cell's global id, turned and mirrored as the cell's
/// flags say; nothing where `lookup` has no tile of the catalog for the id.
pub open spec fn spec_resolve(lookup: Map<u32, usize>, tile_count: int, raw: u32) -> Option<MapTile> {
    let gid = spec_gid(raw) as u32;
    if lookup.contains_key(gid) && lookup[gid] < tile_count {
        Some(
            MapTile {
                tile: lookup[gid],
                rotation: spec_rotation(spec_pattern(raw)) as usize,
                flipped: spec_flipped(spec_pattern(raw)),
            },
        )
    } else {
        None
    }
}

/// The placement that a packed cell stands for.
pub fn resolve_cell(lookup: &HashMap<u32, usize>, tile_count: usize, raw: u32) -> (r: Option<MapTile>)
    ensures
        r == spec_resolve(lookup@, tile_count as int, raw),
{
    let (gid, pattern) = split_cell(raw);
    let (rotation, flipped) = decode(pattern);
    match lookup.get(&gid) {
        Some(tile) => {
            if *tile < tile_count {
                Some(MapTile { tile: *tile, rotation, flipped })
            } else {
                None
            }
        },
        None => None,
    }
}

impl MapSource {
    /// Whether every layer is `height` rows of `width` cells.
    pub open spec fn spec_rectangular(self) -> bool {
        forall|l: int|
            0 <= l < self.layers@.len() ==> (#[trigger] self.layers@[l])@.len() == self.height && forall|
                y: int,
            |
                0 <= y < self.height ==> (#[trigger] self.layers@[l]@[y])@.len() == self.width
    }

    /// Whether the grid can be held, its extent fits the coordinates, and
    /// the shapes of its collision world can be numbered.
    pub open spec fn spec_fits(self) -> bool {
        &&& 4 + self.width * self.height + self.objects@.len() <= usize::MAX
        &&& self.width * self.tile_width <= i64::MAX
        &&& self.height * self.tile_height <= i64::MAX
    }

    /// The packed cell at column `x` of row `y` of layer `l`.
    pub open spec fn spec_raw(self, l: int, x: int, y: int) -> u32 {
        self.layers@[l]@[y]@[x]
    }

    /// The placement at column `x` of row `y` after the first `upto` layers:
    /// that of the topmost of them that places a tile there.
    pub open spec fn spec_cell(self, lookup: Map<u32, usize>, tile_count: int, x: int, y: int, upto: int) -> Option<
        MapTile,
    >
        decreases upto,
    {
        if upto <= 0 {
            None
        } else {
            match spec_resolve(lookup, tile_count, self.spec_raw(upto - 1, x, y)) {
                Some(placed) => Some(placed),
                None => self.spec_cell(lookup, tile_count, x, y, upto - 1),
            }
        }
    }

    /// Whether every layer is `height` rows of `width` cells.
    pub fn rectangular(&self) -> (r: bool)
        ensures
            r == self.spec_rectangular(),
    {
        let mut l: usize = 0;
        while l < self.layers.len()
            invariant
                l <= self.layers.len(),
                forall|k: int|
                    0 <= k < l ==> (#[trigger] self.layers@[k])@.len() == self.height && forall|y: int|
                        0 <= y < self.height ==> (#[trigger] self.layers@[k]@[y])@.len() == self.width,
            decreases self.layers.len() - l,
        {
            let layer = &self.layers[l];
            if layer.len() != self.height as usize {
                proof {
                    assert(self.layers@[l as int]@.len() != self.height);
                }
                return false;
            }
            let mut y: usize = 0;
            while y < layer.len()
                invariant
                    y <= layer.len(),
                    l < self.layers.len(),
                    layer@.len() == self.height,
                    *layer == self.layers@[l as int],
                    forall|k: int| 0 <= k < y ==> (#[trigger] layer@[k])@.len() == self.width,
                decreases layer.len() - y,
            {
                if layer[y].len() != self.width as usize {
                    proof {
                        assert(self.layers@[l as int]@[y as int]@.len() != self.width);
                    }
                    return false;
                }
                y = y + 1;
            }
            l = l + 1;
        }
        true
    }

    /// Whether the grid can be held and its extent fits the coordinates.
    pub fn fits(&self) -> (r: bool)
        ensures
            r == self.spec_fits(),
    {
        proof {
            lemma_product_fits(self.width as int, self.height as int);
            lemma_product_fits(self.width as int, self.tile_width as int);
            lemma_product_fits(self.height as int, self.tile_height as int);
        }
        let cells: u128 = 4 + self.width as u128 * self.height as u128 + self.objects.len() as u128;
        let across: u64 = self.width as u64 * self.tile_width as u64;
        let down: u64 = self.height as u64 * self.tile_height as u64;
        cells <= usize::MAX as u128 && across <= i64::MAX as u64 && down <= i64::MAX as u64
    }
}

/// The grid of a map: for each cell, row by row, the placement of the topmost
/// layer that places a tile there.
fn build_grid(source: &MapSource, lookup: &HashMap<u32, usize>, tile_count: usize) -> (grid: Vec<
    Option<MapTile>,
>)
    requires
        source.spec_rectangular(),
        source.width * source.height <= usize::MAX,
    ensures
        grid@.len() == source.width * source.height,
        forall|k: int|
            0 <= k < grid@.len() ==> #[trigger] grid@[k] == source.spec_cell(
                lookup@,
                tile_count as int,
                k % (source.width as int),
                k / (source.width as int),
                source.layers@.len() as int,
            ),
{
    let width: usize = source.width as usize;
    let height: usize = source.height as usize;
    proof {
        lemma_product_fits(source.width as int, source.height as int);
    }
    let cells: usize = width * height;
    let mut grid: Vec<Option<MapTile>> = Vec::new();
    let mut k: usize = 0;
    while k < cells
        invariant
            k <= cells,
            grid@.len() == k,
            forall|i: int| 0 <= i < k ==> (#[trigger] grid@[i]) is None,
        decreases cells - k,
    {
        grid.push(None);
        k = k + 1;
    }
    let mut l: usize = 0;
    while l < source.layers.len()
        invariant
            l <= source.layers.len(),
            source.spec_rectangular(),
            width == source.width,
            height == source.height,
            cells == width * height,
            grid@.len() == cells,
            forall|i: int|
                0 <= i < cells ==> #[trigger] grid@[i] == source.spec_cell(
                    lookup@,
                    tile_count as int,
                    i % (width as int),
                    i / (width as int),
                    l as int,
                ),
        decreases source.layers.len() - l,
    {
        let layer = &source.layers[l];
        let mut y: usize = 0;
        while y < height
            invariant
                y <= height,
                l < source.layers.len(),
                *layer == source.layers@[l as int],
                source.spec_rectangular(),
                width == source.width,
                height == source.height,
                cells == width * height,
                grid@.len() == cells,
                forall|i: int|
                    0 <= i < cells ==> #[trigger] grid@[i] == source.spec_cell(
                        lookup@,
                        tile_count as int,
                        i % (width as int),
                        i / (width as int),
                        if i < y * width {
                            l + 1
                        } else {
                            l as int
                        },
                    ),
            decreases height - y,
        {
            let row = &layer[y];
            let mut x: usize = 0;
            while x < width
                invariant
                    x <= width,
                    y < height,
                    l < source.layers.len(),
                    *layer == source.layers@[l as int],
                    *row == layer@[y as int],
                    source.spec_rectangular(),
                    width == source.width,
                    height == source.height,
                    cells == width * height,
                    grid@.len() == cells,
                    forall|i: int|
                        0 <= i < cells ==> #[trigger] grid@[i] == source.spec_cell(
                            lookup@,
                            tile_count as int,
                            i % (width as int),
                            i / (width as int),
                            if i < y * width + x {
                                l + 1
                            } else {
                                l as int
                            },
                        ),
                decreases width - x,
            {
                proof {
                    lemma_cell_in_grid(x as int, y as int, width as int, height as int);
                    assert(layer@[y as int]@.len() == width);
                }
                let at: usize = y * width + x;
                let raw = row[x];
                match resolve_cell(lookup, tile_count, raw) {
                    Some(placed) => {
                        grid[at] = Some(placed);
                    },
                    None => {},
                }
                x = x + 1;
            }
            proof {
                assert((y + 1) * width == y * width + width) by (nonlinear_arith);
            }
            y = y + 1;
        }
        proof {
            assert(height * width == cells) by (nonlinear_arith)
                requires
                    cells == width * height,
            ;
        }
        l = l + 1;
    }
    grid
}

/// The object that the map file's `source` becomes: on the catalog tile that
/// `lookup` gives for its global id, facing the quarter turn nearest to its
/// angle, mirrored if the top bit of the id is set, and with its top-left
/// corner worked out from the anchor, which lies at another corner of the
/// tile's box for each rotation. Nothing where `lookup` has no tile of the
/// catalog for the id.
pub open spec fn spec_place_object(
    lookup: Map<u32, usize>,
    tiles: Seq<Tile>,
    source: ObjectSource,
) -> Option<MapObject> {
    let gid = spec_gid(source.gid) as u32;
    if lookup.contains_key(gid) && lookup[gid] < tiles.len() {
        let tile = tiles[lookup[gid] as int];
        let rotation = spec_normalize(spec_nearest_quarter(source.rotation as int));
        Some(
            MapObject {
                tile: lookup[gid],
                object: Object {
                    x: (if rotation >= 2 {
                        saturate(source.x - tile.width * SUBUNITS)
                    } else {
                        source.x as int
                    }) as i64,
                    y: (if rotation == 0 || rotation == 3 {
                        saturate(source.y - tile.height * SUBUNITS)
                    } else {
                        source.y as int
                    }) as i64,
                    move_x: 0,
                    move_y: 0,
                    width: tile.width,
                    height: tile.height,
                    rotation: rotation as usize,
                    flipped: source.gid >= 0x8000_0000,
                },
            },
        )
    } else {
        None
    }
}

/// The object that the map file's `source` becomes.
pub fn place_object(lookup: &HashMap<u32, usize>, tiles: &Tiles, source: &ObjectSource) -> (r: Option<
    MapObject,
>)
    ensures
        r == spec_place_object(lookup@, tiles.tiles(), *source),
{
    let (gid, _) = split_cell(source.gid);
    let index = match lookup.get(&gid) {
        Some(index) => *index,
        None => {
            return None;
        },
    };
    let tile = match tiles.get(index) {
        Some(tile) => tile,
        None => {
            return None;
        },
    };
    let rotation = rotation_from_angle(source.rotation);
    let x = if rotation >= 2 {
        add_saturating(source.x, -(tile.width as i64 * SUBUNITS))
    } else {
        source.x
    };
    let y = if rotation == 0 || rotation == 3 {
        add_saturating(source.y, -(tile.height as i64 * SUBUNITS))
    } else {
        source.y
    };
    Some(
        MapObject {
            tile: index,
            object: Object::new(tile.width, tile.height, x, y, rotation, object_flipped(source.gid)),
        },
    )
}

/// The two groups of shapes. Shapes meet only across the groups: an object
/// meets walls and tiles, and never another object.
#[derive(Clone, Copy, Debug, PartialEq, Eq, Structural)]
pub enum Group {
    /// The walls and the placed tiles, which stand still.
    Ground,
    /// The objects, which move.
    Moving,
}

/// Whether a shape of the group `first` can meet a shape of the group
/// `second`.
pub fn groups_meet(first: Group, second: Group) -> (r: bool)
    ensures
        r == (first != second),
{
    match first {
        Group::Ground => match second {
            Group::Ground => false,
            Group::Moving => true,
        },
        Group::Moving => match second {
            Group::Ground => true,
            Group::Moving => false,
        },
    }
}

/// A shape of the collision world.
#[derive(Clone, Copy, Debug, PartialEq, Eq, Structural)]
pub enum Collider {
    /// A half-plane through `(x, y)`, in whole world units, that is solid
    /// behind its normal.
    Wall { x: i64, y: i64, normal_x: i8, normal_y: i8 },
    /// The box of the catalog tile `tile`, placed at `(x, y)`, in whole
    /// world units.
    Tile { x: i64, y: i64, tile: usize },
    /// The box of the catalog tile `tile`, placed at `(x, y)`, in sub-units,
    /// for the object at place `object` among the map's objects.
    Object { x: i64, y: i64, tile: usize, object: usize },
}

impl Collider {
    /// The group of the shape.
    pub open spec fn spec_group(self) -> Group {
        match self {
            Collider::Object { .. } => Group::Moving,
            _ => Group::Ground,
        }
    }

    /// The group of the shape.
    pub fn group(&self) -> (r: Group)
        ensures
            r == self.spec_group(),
    {
        match self {
            Collider::Object { .. } => Group::Moving,
            _ => Group::Ground,
        }
    }
}

/// One draw call: the texture to draw, the quad of which rotation to draw it
/// with, where in whole world units, and mirrored (`-1`) or not (`1`).
#[derive(Clone, Copy, Debug, PartialEq, Eq, Structural)]
pub struct DrawCall {
    pub texture: usize,
    pub rotation: usize,
    pub x: i64,
    pub y: i64,
    pub flip: i8,
}

/// The multiplier that mirrors a sprite or leaves it as it is.
pub open spec fn spec_flip(flipped: bool) -> i8 {
    if flipped {
        -1i8
    } else {
        1i8
    }
}

/// The four walls round a map that is `across` by `down` world units: left,
/// right, top, bottom, each facing inward.
pub open spec fn spec_walls(across: i64, down: i64) -> Seq<Collider> {
    seq![
        Collider::Wall { x: 0, y: 0, normal_x: 1, normal_y: 0 },
        Collider::Wall { x: across, y: 0, normal_x: -1i8, normal_y: 0 },
        Collider::Wall { x: 0, y: 0, normal_x: 0, normal_y: 1 },
        Collider::Wall { x: 0, y: down, normal_x: 0, normal_y: -1i8 },
    ]
}

/// A tile placed in the cell at column `x` of row `y`.
#[derive(Clone, Copy, Debug, PartialEq, Eq, Structural)]
pub struct Placement {
    pub x: u32,
    pub y: u32,
    pub tile: MapTile,
}

/// The tiles placed in the first `count` cells of a grid, in grid order: row
/// by row from the top, each row from the left.
pub open spec fn spec_placements(grid: Seq<Option<MapTile>>, width: int, count: int) -> Seq<Placement>
    decreases count,
{
    if count <= 0 {
        Seq::empty()
    } else {
        let before = spec_placements(grid, width, count - 1);
        match grid[count - 1] {
            Some(tile) => before.push(
                Placement { x: ((count - 1) % width) as u32, y: ((count - 1) / width) as u32, tile },
            ),
            None => before,
        }
    }
}

/// The shapes of placed tiles, in order: the box of each tile at the corner
/// of its cell.
pub open spec fn spec_tile_colliders(placements: Seq<Placement>, tile_width: int, tile_height: int) -> Seq<
    Collider,
> {
    Seq::new(
        placements.len(),
        |i: int|
            Collider::Tile {
                x: (placements[i].x * tile_width) as i64,
                y: (placements[i].y * tile_height) as i64,
                tile: placements[i].tile.tile,
            },
    )
}

/// The shapes of the objects, in order, each where its object stands.
pub open spec fn spec_object_colliders(objects: Seq<MapObject>) -> Seq<Collider> {
    Seq::new(
        objects.len(),
        |i: int|
            Collider::Object { x: objects[i].object.x, y: objects[i].object.y, tile: objects[i].tile, object: i as usize },
    )
}

/// The draw calls for placed tiles, in order: each draws the tile that its
/// animation shows after `elapsed` milliseconds.
pub open spec fn spec_grid_draws(placements: Seq<Placement>, tiles: Seq<Tile>, elapsed: u64) -> Seq<DrawCall> {
    Seq::new(
        placements.len(),
        |i: int|
            DrawCall {
                texture: tiles[spec_shown(tiles, placements[i].tile.tile as int, elapsed)].texture,
                rotation: placements[i].tile.rotation,
                x: (placements[i].x * DRAW_CELL) as i64,
                y: (placements[i].y * DRAW_CELL) as i64,
                flip: spec_flip(placements[i].tile.flipped),
            },
    )
}

/// The draw calls for the objects, in order, each at the whole world units
/// of its object's position, rounded toward zero.
pub open spec fn spec_object_draws(objects: Seq<MapObject>, tiles: Seq<Tile>, elapsed: u64) -> Seq<DrawCall> {
    Seq::new(
        objects.len(),
        |i: int|
            DrawCall {
                texture: tiles[spec_shown(tiles, objects[i].tile as int, elapsed)].texture,
                rotation: objects[i].object.rotation,
                x: spec_whole_units(objects[i].object.x as int) as i64,
                y: spec_whole_units(objects[i].object.y as int) as i64,
                flip: spec_flip(objects[i].object.flipped),
            },
    )
}

/// A loaded map.
#[derive(Debug)]
pub struct TileMap {
    width: u32,
    height: u32,
    tile_width: u32,
    tile_height: u32,
    grid: Vec<Option<MapTile>>,
    objects: Vec<MapObject>,
    color: [u8; 4],
    statics: usize,
}

impl TileMap {
    /// The number of cells in a row of the grid.
    pub closed spec fn width(self) -> int {
        self.width as int
    }

    /// The number of rows of the grid.
    pub closed spec fn height(self) -> int {
        self.height as int
    }

    /// The width of a cell in world units.
    pub closed spec fn tile_width(self) -> int {
        self.tile_width as int
    }

    /// The height of a cell in world units.
    pub closed spec fn tile_height(self) -> int {
        self.tile_height as int
    }

    /// The placements, row by row: `None` for an empty cell.
    pub closed spec fn grid(self) -> Seq<Option<MapTile>> {
        self.grid@
    }

    /// The objects, in the order of the map file.
    pub closed spec fn objects(self) -> Seq<MapObject> {
        self.objects@
    }

    /// The color that the frame is cleared to: encoded red, green, blue, and
    /// full alpha.
    pub closed spec fn color(self) -> Seq<u8> {
        self.color@
    }

    /// The number of shapes of the collision world that stand still: the
    /// walls and the placed tiles.
    pub closed spec fn statics(self) -> int {
        self.statics as int
    }

    /// The placed tiles, in grid order.
    pub open spec fn spec_placed(self) -> Seq<Placement> {
        spec_placements(self.grid(), self.width(), self.grid().len() as int)
    }

    /// The shapes that seed the collision world, in the order they enter it:
    /// the four walls, the placed tiles in grid order, then the objects. The
    /// place of a shape in this sequence is its handle.
    pub open spec fn spec_colliders(self) -> Seq<Collider> {
        spec_walls((self.width() * self.tile_width()) as i64, (self.height() * self.tile_height()) as i64)
            + spec_tile_colliders(self.spec_placed(), self.tile_width(), self.tile_height())
            + spec_object_colliders(self.objects())
    }

    /// The draw calls of one frame, `elapsed` milliseconds into the session:
    /// the placed tiles in grid order, then the objects in order.
    pub open spec fn spec_draw_calls(self, tiles: Seq<Tile>, elapsed: u64) -> Seq<DrawCall> {
        spec_grid_draws(self.spec_placed(), tiles, elapsed) + spec_object_draws(self.objects(), tiles, elapsed)
    }

    /// The grid has one entry for each cell, the extent of the map fits the
    /// coordinates, the static shapes are counted, and every shape has a
    /// handle.
    pub open spec fn wf(self) -> bool {
        &&& self.grid().len() == self.width() * self.height()
        &&& self.width() * self.tile_width() <= i64::MAX
        &&& self.height() * self.tile_height() <= i64::MAX
        &&& self.color().len() == 4
        &&& self.statics() == 4 + self.spec_placed().len()
        &&& self.statics() + self.objects().len() <= usize::MAX
    }

    /// Whether every placed tile and every object is on a tile of a catalog
    /// of `tile_count` tiles, and turned by a rotation in `0..4`.
    pub open spec fn spec_valid_for(self, tile_count: int) -> bool {
        &&& forall|k: int|
            0 <= k < self.grid().len() ==> (#[trigger] self.grid()[k] matches Some(placed) ==> placed.tile
                < tile_count && placed.rotation < 4)
        &&& forall|i: int|
            0 <= i < self.objects().len() ==> (#[trigger] self.objects()[i]).tile < tile_count
                && self.objects()[i].object.rotation < 4
    }

    /// Why `source` cannot be loaded, if it cannot.
    pub open spec fn spec_load_error(source: MapSource, tiles: Seq<Tile>, lookup: Map<u32, usize>) -> Option<
        MapError,
    > {
        if !source.spec_rectangular() {
            Some(MapError::RaggedLayer)
        } else if !source.spec_fits() {
            Some(MapError::TooLarge)
        } else if exists|i: int|
            0 <= i < source.objects@.len() && spec_place_object(lookup, tiles, #[trigger] source.objects@[i]) is None {
            Some(MapError::UnknownObjectTile)
        } else {
            None
        }
    }

    /// Whether this is the map that `source` describes, over the catalog
    /// `tiles` and the lookup `lookup` from global tile ids to the catalog.
    pub open spec fn spec_loaded_from(self, source: MapSource, tiles: Seq<Tile>, lookup: Map<u32, usize>) -> bool {
        &&& self.width() == source.width
        &&& self.height() == source.height
        &&& self.tile_width() == source.tile_width
        &&& self.tile_height() == source.tile_height
        &&& self.grid().len() == source.width * source.height
        &&& forall|k: int|
            0 <= k < self.grid().len() ==> #[trigger] self.grid()[k] == source.spec_cell(
                lookup,
                tiles.len() as int,
                k % (source.width as int),
                k / (source.width as int),
                source.layers@.len() as int,
            )
        &&& self.objects().len() == source.objects@.len()
        &&& forall|i: int|
            0 <= i < self.objects().len() ==> Some(#[trigger] self.objects()[i]) == spec_place_object(
                lookup,
                tiles,
                source.objects@[i],
            )
        &&& self.color() == spec_clear_color(source.background)
    }
}

/// The color that the frame is cleared to: the map's background with full
/// alpha, and opaque black where the map names none.
pub open spec fn spec_clear_color(background: Option<Rgb>) -> Seq<u8> {
    match background {
        Some(color) => seq![color.red, color.green, color.blue, 255u8],
        None => seq![0u8, 0u8, 0u8, 255u8],
    }
}

/// The color that the frame is cleared to.
pub fn clear_color(background: Option<Rgb>) -> (r: [u8; 4])
    ensures
        r@ == spec_clear_color(background),
{
    let color = match background {
        Some(color) => [color.red, color.green, color.blue, 255],
        None => [0, 0, 0, 255],
    };
    proof {
        assert(color@ =~= spec_clear_color(background));
    }
    color
}

/// Every placement of a grid built from a map file is on a tile of the
/// catalog and turned by a rotation in `0..4`.
pub proof fn lemma_cell_valid(source: MapSource, lookup: Map<u32, usize>, tile_count: int, x: int, y: int, upto: int)
    ensures
        source.spec_cell(lookup, tile_count, x, y, upto) matches Some(placed) ==> placed.tile < tile_count
            && placed.rotation < 4,
    decreases upto,
{
    if upto > 0 {
        lemma_cell_valid(source, lookup, tile_count, x, y, upto - 1);
    }
}

/// The placements of a grid are no more than its cells, and each stands for
/// an occupied cell of the grid.
pub proof fn lemma_placements(grid: Seq<Option<MapTile>>, width: int, height: int, count: int)
    requires
        0 <= count <= grid.len(),
        grid.len() == width * height,
        0 <= width <= u32::MAX,
        0 <= height <= u32::MAX,
    ensures
        spec_placements(grid, width, count).len() <= count,
        forall|i: int|
            0 <= i < spec_placements(grid, width, count).len() ==> {
                let placed = #[trigger] spec_placements(grid, width, count)[i];
                &&& placed.x < width
                &&& placed.y < height
                &&& placed.y * width + placed.x < count
                &&& grid[placed.y * width + placed.x] == Some(placed.tile)
            },
    decreases count,
{
    if count > 0 {
        lemma_placements(grid, width, height, count - 1);
        let k = count - 1;
        assert(width > 0) by (nonlinear_arith)
            requires
                width * height > 0,
                width >= 0,
        ;
        vstd::arithmetic::div_mod::lemma_fundamental_div_mod(k, width);
        assert(0 <= k % width < width);
        assert(0 <= k / width < height) by (nonlinear_arith)
            requires
                0 <= k < width * height,
                width > 0,
                k == width * (k / width) + k % width,
                0 <= k % width < width,
        ;
        assert((k / width) * width == width * (k / width)) by (nonlinear_arith);
    }
}

impl TileMap {
    /// Loads the map that `source` describes, over the catalog `tiles` and
    /// the lookup `lookup` from global tile ids to the catalog.
    ///
    /// A cell whose global tile id `lookup` does not know stays empty. An
    /// object whose global tile id `lookup` does not know fails the load.
    pub fn load(source: &MapSource, tiles: &Tiles, lookup: &HashMap<u32, usize>) -> (r: Result<
        TileMap,
        MapError,
    >)
        ensures
            match r {
                Err(e) => TileMap::spec_load_error(*source, tiles.tiles(), lookup@) == Some(e),
                Ok(map) => {
                    &&& TileMap::spec_load_error(*source, tiles.tiles(), lookup@) is None
                    &&& map.spec_loaded_from(*source, tiles.tiles(), lookup@)
                    &&& map.wf()
                    &&& map.spec_valid_for(tiles.tiles().len() as int)
                },
            },
    {
        if !source.rectangular() {
            return Err(MapError::RaggedLayer);
        }
        if !source.fits() {
            return Err(MapError::TooLarge);
        }
        let grid = build_grid(source, lookup, tiles.len());
        let mut objects: Vec<MapObject> = Vec::new();
        let mut i: usize = 0;
        while i < source.objects.len()
            invariant
                i <= source.objects.len(),
                objects@.len() == i,
                source.spec_rectangular(),
                source.spec_fits(),
                forall|k: int|
                    0 <= k < i ==> Some(#[trigger] objects@[k]) == spec_place_object(
                        lookup@,
                        tiles.tiles(),
                        source.objects@[k],
                    ),
                forall|k: int|
                    0 <= k < i ==> spec_place_object(lookup@, tiles.tiles(), #[trigger] source.objects@[k]) is Some,
            decreases source.objects.len() - i,
        {
            match place_object(lookup, tiles, &source.objects[i]) {
                Some(placed) => {
                    objects.push(placed);
                },
                None => {
                    proof {
                        assert(spec_place_object(lookup@, tiles.tiles(), source.objects@[i as int]) is None);
                    }
                    return Err(MapError::UnknownObjectTile);
                },
            }
            i = i + 1;
        }
        let mut statics: usize = 4;
        let mut k: usize = 0;
        proof {
            lemma_placements(grid@, source.width as int, source.height as int, grid@.len() as int);
        }
        while k < grid.len()
            invariant
                k <= grid.len(),
                grid@.len() == source.width * source.height,
                source.spec_fits(),
                statics == 4 + spec_placements(grid@, source.width as int, k as int).len(),
                statics <= 4 + k,
            decreases grid.len() - k,
        {
            if grid[k].is_some() {
                statics = statics + 1;
            }
            k = k + 1;
        }
        let map = TileMap {
            width: source.width,
            height: source.height,
            tile_width: source.tile_width,
            tile_height: source.tile_height,
            grid,
            objects,
            color: clear_color(source.background),
            statics,
        };
        proof {
            assert forall|k: int| 0 <= k < map.grid().len() implies (#[trigger] map.grid()[k] matches Some(
                placed,
            ) ==> placed.tile < tiles.tiles().len() && placed.rotation < 4) by {
                lemma_cell_valid(
                    *source,
                    lookup@,
                    tiles.tiles().len() as int,
                    k % (source.width as int),
                    k / (source.width as int),
                    source.layers@.len() as int,
                );
            }
        }
        Ok(map)
    }

    /// The number of cells in a row of the grid.
    pub fn columns(&self) -> (r: u32)
        ensures
            r == self.width(),
    {
        self.width
    }

    /// The number of rows of the grid.
    pub fn rows(&self) -> (r: u32)
        ensures
            r == self.height(),
    {
        self.height
    }

    /// The color that the frame is cleared to: encoded red, green, blue, and
    /// full alpha.
    pub fn clear(&self) -> (r: [u8; 4])
        ensures
            r@ == self.color(),
    {
        self.color
    }

    /// The placement in the cell at column `x` of row `y`; `None` for an
    /// empty cell and outside the grid.
    pub fn tile_at(&self, x: u32, y: u32) -> (r: Option<MapTile>)
        requires
            self.wf(),
        ensures
            r == (if x < self.width() && y < self.height() {
                self.grid()[y * self.width() + x]
            } else {
                None
            }),
    {
        if x < self.width && y < self.height {
            proof {
                lemma_cell_in_grid(x as int, y as int, self.width as int, self.height as int);
            }
            let count = self.grid.len();
            self.grid[y as usize * self.width as usize + x as usize]
        } else {
            None
        }
    }

    /// The placed tiles, in grid order.
    pub fn placements(&self) -> (r: Vec<Placement>)
        requires
            self.wf(),
        ensures
            r@ == self.spec_placed(),
            r@.len() + 4 == self.statics(),
            forall|i: int|
                0 <= i < r@.len() ==> (#[trigger] r@[i]).x < self.width() && r@[i].y < self.height()
                    && self.grid()[r@[i].y * self.width() + r@[i].x] == Some(r@[i].tile),
    {
        let mut placed: Vec<Placement> = Vec::new();
        let count = self.grid.len();
        let mut y: u32 = 0;
        while y < self.height
            invariant
                y <= self.height,
                self.wf(),
                count == self.grid@.len(),
                placed@ == spec_placements(self.grid@, self.width as int, y * self.width),
            decreases self.height - y,
        {
            let mut x: u32 = 0;
            while x < self.width
                invariant
                    x <= self.width,
                    y < self.height,
                    self.wf(),
                    count == self.grid@.len(),
                    placed@ == spec_placements(self.grid@, self.width as int, y * self.width + x),
                decreases self.width - x,
            {
                proof {
                    lemma_cell_in_grid(x as int, y as int, self.width as int, self.height as int);
                }
                let at: usize = y as usize * self.width as usize + x as usize;
                match self.grid[at] {
                    Some(tile) => {
                        placed.push(Placement { x, y, tile });
                    },
                    None => {},
                }
                x = x + 1;
            }
            proof {
                assert((y + 1) * self.width == y * self.width + self.width) by (nonlinear_arith);
            }
            y = y + 1;
        }
        proof {
            assert(y * self.width == self.grid@.len()) by (nonlinear_arith)
                requires
                    y == self.height,
                    self.grid@.len() == self.width * self.height,
            ;
            lemma_placements(self.grid@, self.width as int, self.height as int, self.grid@.len() as int);
        }
        placed
    }

    /// The shapes that seed the collision world, in the order they enter it:
    /// the four walls, the placed tiles in grid order, then the objects. The
    /// place of a shape in the result is its handle.
    pub fn colliders(&self) -> (r: Vec<Collider>)
        requires
            self.wf(),
        ensures
            r@ == self.spec_colliders(),
            r@.len() == self.statics() + self.objects().len(),
    {
        proof {
            lemma_product_fits(self.width as int, self.tile_width as int);
            lemma_product_fits(self.height as int, self.tile_height as int);
        }
        let across: i64 = (self.width as u64 * self.tile_width as u64) as i64;
        let down: i64 = (self.height as u64 * self.tile_height as u64) as i64;
        let mut shapes: Vec<Collider> = Vec::new();
        shapes.push(Collider::Wall { x: 0, y: 0, normal_x: 1, normal_y: 0 });
        shapes.push(Collider::Wall { x: across, y: 0, normal_x: -1, normal_y: 0 });
        shapes.push(Collider::Wall { x: 0, y: 0, normal_x: 0, normal_y: 1 });
        shapes.push(Collider::Wall { x: 0, y: down, normal_x: 0, normal_y: -1 });
        proof {
            assert(shapes@ =~= spec_walls(across, down));
        }
        let placed = self.placements();
        let ghost walls = shapes@;
        let ghost boxes = spec_tile_colliders(placed@, self.tile_width as int, self.tile_height as int);
        let mut i: usize = 0;
        while i < placed.len()
            invariant
                i <= placed.len(),
                self.wf(),
                walls.len() == 4,
                boxes == spec_tile_colliders(placed@, self.tile_width as int, self.tile_height as int),
                shapes@ == walls + boxes.take(i as int),
                forall|k: int| 0 <= k < placed@.len() ==> (#[trigger] placed@[k]).x < self.width && placed@[k].y < self.height,
            decreases placed.len() - i,
        {
            let place = placed[i];
            proof {
                assert(place.x * self.tile_width <= self.width * self.tile_width) by (nonlinear_arith)
                    requires
                        place.x < self.width,
                        self.tile_width >= 0,
                ;
                assert(place.y * self.tile_height <= self.height * self.tile_height) by (nonlinear_arith)
                    requires
                        place.y < self.height,
                        self.tile_height >= 0,
                ;
            }
            let x: i64 = (place.x as u64 * self.tile_width as u64) as i64;
            let y: i64 = (place.y as u64 * self.tile_height as u64) as i64;
            shapes.push(Collider::Tile { x, y, tile: place.tile.tile });
            proof {
                assert(shapes@ =~= walls + boxes.take(i + 1));
            }
            i = i + 1;
        }
        let ghost moving = spec_object_colliders(self.objects@);
        proof {
            assert(boxes.take(i as int) =~= boxes);
        }
        let mut j: usize = 0;
        while j < self.objects.len()
            invariant
                j <= self.objects.len(),
                moving == spec_object_colliders(self.objects@),
                shapes@ == walls + boxes + moving.take(j as int),
            decreases self.objects.len() - j,
        {
            let entry = self.objects[j];
            shapes.push(Collider::Object { x: entry.object.x, y: entry.object.y, tile: entry.tile, object: j });
            proof {
                assert(shapes@ =~= walls + boxes + moving.take(j + 1));
            }
            j = j + 1;
        }
        proof {
            assert(moving.take(j as int) =~= moving);
        }
        shapes
    }

    /// The draw calls of one frame, `elapsed` milliseconds into the session:
    /// the placed tiles in grid order, then the objects in order.
    pub fn draw_calls(&self, tiles: &Tiles, elapsed: u64) -> (r: Vec<DrawCall>)
        requires
            self.wf(),
            tiles.wf(),
            self.spec_valid_for(tiles.tiles().len() as int),
        ensures
            r@ == self.spec_draw_calls(tiles.tiles(), elapsed),
    {
        let placed = self.placements();
        let ghost still = spec_grid_draws(placed@, tiles.tiles(), elapsed);
        let mut calls: Vec<DrawCall> = Vec::new();
        let mut i: usize = 0;
        while i < placed.len()
            invariant
                i <= placed.len(),
                self.wf(),
                tiles.wf(),
                self.spec_valid_for(tiles.tiles().len() as int),
                still == spec_grid_draws(placed@, tiles.tiles(), elapsed),
                calls@ == still.take(i as int),
                forall|k: int|
                    0 <= k < placed@.len() ==> (#[trigger] placed@[k]).x < self.width() && placed@[k].y
                        < self.height() && self.grid()[placed@[k].y * self.width() + placed@[k].x] == Some(
                        placed@[k].tile,
                    ),
            decreases placed.len() - i,
        {
            let place = placed[i];
            proof {
                lemma_cell_in_grid(place.x as int, place.y as int, self.width(), self.height());
                assert(self.grid()[place.y * self.width() + place.x] == Some(place.tile));
            }
            let texture = shown_texture(tiles, place.tile.tile, elapsed);
            calls.push(
                DrawCall {
                    texture,
                    rotation: place.tile.rotation,
                    x: place.x as i64 * DRAW_CELL,
                    y: place.y as i64 * DRAW_CELL,
                    flip: if place.tile.flipped {
                        -1
                    } else {
                        1
                    },
                },
            );
            proof {
                assert(calls@ =~= still.take(i + 1));
            }
            i = i + 1;
        }
        let ghost moving = spec_object_draws(self.objects@, tiles.tiles(), elapsed);
        proof {
            assert(still.take(i as int) =~= still);
        }
        let mut j: usize = 0;
        while j < self.objects.len()
            invariant
                j <= self.objects.len(),
                tiles.wf(),
                self.spec_valid_for(tiles.tiles().len() as int),
                moving == spec_object_draws(self.objects@, tiles.tiles(), elapsed),
                calls@ == still + moving.take(j as int),
            decreases self.objects.len() - j,
        {
            let entry = self.objects[j];
            proof {
                assert(self.objects()[j as int].tile < tiles.tiles().len());
            }
            let texture = shown_texture(tiles, entry.tile, elapsed);
            calls.push(
                DrawCall {
                    texture,
                    rotation: entry.object.rotation,
                    x: whole_units(entry.object.x),
                    y: whole_units(entry.object.y),
                    flip: if entry.object.flipped {
                        -1
                    } else {
                        1
                    },
                },
            );
            proof {
                assert(calls@ =~= still + moving.take(j + 1));
            }
            j = j + 1;
        }
        proof {
            assert(moving.take(j as int) =~= moving);
        }
        calls
    }

    /// The number of objects.
    pub fn object_count(&self) -> (r: usize)
        ensures
            r == self.objects().len(),
    {
        self.objects.len()
    }

    /// The object at place `index`; `None` where there is none.
    pub fn object(&self, index: usize) -> (r: Option<MapObject>)
        ensures
            r == (if index < self.objects().len() {
                Some(self.objects()[index as int])
            } else {
                None
            }),
    {
        if index < self.objects.len() {
            Some(self.objects[index])
        } else {
            None
        }
    }

    /// The handle of the collision shape of the object at place `index`;
    /// `None` where there is no such object.
    pub fn object_handle(&self, index: usize) -> (r: Option<usize>)
        requires
            self.wf(),
        ensures
            r == (if index < self.objects().len() {
                Some(self.spec_object_handle(index as int) as usize)
            } else {
                None
            }),
    {
        if index < self.objects.len() {
            Some(self.statics + index)
        } else {
            None
        }
    }

    /// The place of the object whose collision shape has the handle
    /// `handle`; `None` where the handle is that of a wall or a tile, or of
    /// no shape.
    pub fn object_of(&self, handle: usize) -> (r: Option<usize>)
        requires
            self.wf(),
        ensures
            r == (if self.statics() <= handle < self.statics() + self.objects().len() {
                Some((handle - self.statics()) as usize)
            } else {
                None
            }),
    {
        if handle >= self.statics && handle - self.statics < self.objects.len() {
            Some(handle - self.statics)
        } else {
            None
        }
    }

    /// Puts `object` in the place `index`, as after a script has changed it.
    /// Returns whether it did: it does not where there is no such place, or
    /// where `object` is turned by a rotation outside `0..4`.
    pub fn set_object(&mut self, index: usize, object: Object) -> (r: bool)
        requires
            old(self).wf(),
        ensures
            final(self).wf(),
            r == (index < old(self).objects().len() && object.rotation < 4),
            final(self).spec_same_ground(*old(self)),
            r ==> final(self).objects() == old(self).objects().update(
                index as int,
                MapObject { tile: old(self).objects()[index as int].tile, object },
            ),
            !r ==> final(self).objects() == old(self).objects(),
            forall|tile_count: int| old(self).spec_valid_for(tile_count) ==> final(self).spec_valid_for(tile_count),
    {
        if index < self.objects.len() && object.rotation < 4 {
            let tile = self.objects[index].tile;
            self.objects[index] = MapObject { tile, object };
            true
        } else {
            false
        }
    }

    /// Resolves the pending movement of the object at place `index` against
    /// `impacts`, the times of impact that the sweep of its full step found
    /// for the contacts it began. Returns whether there is such an object.
    pub fn advance_object(&mut self, index: usize, impacts: &Vec<Option<Fraction>>) -> (r: bool)
        requires
            old(self).wf(),
        ensures
            final(self).wf(),
            r == (index < old(self).objects().len()),
            final(self).spec_same_ground(*old(self)),
            r ==> final(self).objects() == old(self).objects().update(
                index as int,
                MapObject {
                    tile: old(self).objects()[index as int].tile,
                    object: old(self).objects()[index as int].object.spec_advanced(impacts@),
                },
            ),
            !r ==> final(self).objects() == old(self).objects(),
            forall|tile_count: int| old(self).spec_valid_for(tile_count) ==> final(self).spec_valid_for(tile_count),
    {
        if index < self.objects.len() {
            let mut entry = self.objects[index];
            entry.object.advance(impacts);
            self.objects[index] = entry;
            true
        } else {
            false
        }
    }

    /// Whether every placed tile and every object is on a tile of a catalog
    /// of `tile_count` tiles, and turned by a rotation in `0..4`.
    pub fn valid_for(&self, tile_count: usize) -> (r: bool)
        ensures
            r == self.spec_valid_for(tile_count as int),
    {
        let mut k: usize = 0;
        while k < self.grid.len()
            invariant
                k <= self.grid.len(),
                forall|i: int|
                    0 <= i < k ==> (#[trigger] self.grid()[i] matches Some(placed) ==> placed.tile < tile_count
                        && placed.rotation < 4),
            decreases self.grid.len() - k,
        {
            if let Some(placed) = self.grid[k] {
                if placed.tile >= tile_count || placed.rotation >= 4 {
                    proof {
                        assert(self.grid()[k as int] == Some(placed));
                    }
                    return false;
                }
            }
            k = k + 1;
        }
        let mut i: usize = 0;
        while i < self.objects.len()
            invariant
                i <= self.objects.len(),
                forall|j: int|
                    0 <= j < i ==> (#[trigger] self.objects()[j]).tile < tile_count
                        && self.objects()[j].object.rotation < 4,
                forall|j: int|
                    0 <= j < self.grid().len() ==> (#[trigger] self.grid()[j] matches Some(placed)
                        ==> placed.tile < tile_count && placed.rotation < 4),
            decreases self.objects.len() - i,
        {
            let entry = self.objects[i];
            if entry.tile >= tile_count || entry.object.rotation >= 4 {
                proof {
                    assert(self.objects()[i as int] == entry);
                }
                return false;
            }
            i = i + 1;
        }
        true
    }

    /// The handle of the collision shape of the object at place `index`.
    pub open spec fn spec_object_handle(self, index: int) -> int {
        self.statics() + index
    }

    /// Whether this map has the grid, the size and the clear color of
    /// `other`.
    pub open spec fn spec_same_ground(self, other: TileMap) -> bool {
        &&& self.width() == other.width()
        &&& self.height() == other.height()
        &&& self.tile_width() == other.tile_width()
        &&& self.tile_height() == other.tile_height()
        &&& self.grid() == other.grid()
        &&& self.color() == other.color()
        &&& self.statics() == other.statics()
    }
}

/// Every object has a handle of its own, which is the place of its shape
/// among the shapes that seed the collision world, and no wall or tile shares
/// it.
pub proof fn lemma_object_handles(map: TileMap, first: int, second: int)
    requires
        map.wf(),
        0 <= first < map.objects().len(),
        0 <= second < map.objects().len(),
    ensures
        first != second ==> map.spec_object_handle(first) != map.spec_object_handle(second),
        map.statics() <= map.spec_object_handle(first) < map.spec_colliders().len(),
        map.spec_colliders()[map.spec_object_handle(first)] == (Collider::Object {
            x: map.objects()[first].object.x,
            y: map.objects()[first].object.y,
            tile: map.objects()[first].tile,
            object: first as usize,
        }),
        forall|handle: int| 0 <= handle < map.statics() ==> !(#[trigger] map.spec_colliders()[handle] is Object),
{
    let walls = spec_walls(
        (map.width() * map.tile_width()) as i64,
        (map.height() * map.tile_height()) as i64,
    );
    let boxes = spec_tile_colliders(map.spec_placed(), map.tile_width(), map.tile_height());
    let moving = spec_object_colliders(map.objects());
    assert(walls.len() == 4);
    assert(boxes.len() == map.spec_placed().len());
    assert((walls + boxes).len() == map.statics());
    assert(map.spec_colliders()[map.spec_object_handle(first)] == moving[first]);
    assert forall|handle: int| 0 <= handle < map.statics() implies !(#[trigger] map.spec_colliders()[handle] is Object) by {
        if handle < 4 {
            assert(map.spec_colliders()[handle] == walls[handle]);
        } else {
            assert(map.spec_colliders()[handle] == boxes[handle - 4]);
        }
    }
}

/// The texture of the tile drawn for the catalog tile `index` after
/// `elapsed` milliseconds.
fn shown_texture(tiles: &Tiles, index: usize, elapsed: u64) -> (r: usize)
    requires
        tiles.wf(),
        index < tiles.tiles().len(),
    ensures
        r == tiles.tiles()[spec_shown(tiles.tiles(), index as int, elapsed)].texture,
{
    let shown = match tiles.shown(index, elapsed) {
        Some(shown) => shown,
        None => index,
    };
    match tiles.get(shown) {
        Some(tile) => tile.texture,
        None => 0,
    }
}

} // verus!
