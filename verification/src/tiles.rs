//! The tile catalog: every tileset of a session flattened into one table of
//! tiles, each tileset loaded once under its name.

use vstd::prelude::*;
use std::collections::HashMap;
use crate::names::NameTable;
use crate::text::join_path;

verus! {

broadcast use vstd::std_specs::hash::group_hash_axioms;

/// The directory that sprite images are read from.
pub const IMAGES_ROOT: &'static str = "assets/images/";

/// The directory that palette images and tile scripts are read from.
pub const MAP_ROOT: &'static str = "assets/tiled/";

/// The value of a property of a tileset or of a tile.
#[derive(Clone, Debug)]
pub enum Property {
    Bool(bool),
    Int(i32),
    Color(u32),
    /// A floating-point value, held as its whole part, which is zero for a
    /// negative value and `usize::MAX` for one beyond it.
    Float(usize),
    Text(String),
    File(String),
}

/// A named property.
#[derive(Clone, Debug)]
pub struct NamedProperty {
    pub name: String,
    pub value: Property,
}

/// The image of a tile as the tileset describes it.
#[derive(Clone, Debug)]
pub struct ImageSource {
    pub source: String,
    pub width: u32,
    pub height: u32,
}

/// One frame of an animation as the tileset describes it: the id, within the
/// tileset, of the tile to show, and for how many milliseconds.
#[derive(Clone, Copy, Debug, PartialEq, Eq, Structural)]
pub struct FrameSource {
    pub tile_id: u32,
    pub duration: u32,
}

/// A tile as the tileset describes it.
#[derive(Clone, Debug)]
pub struct TileSource {
    pub id: u32,
    pub image: Option<ImageSource>,
    pub properties: Vec<NamedProperty>,
    pub animation: Option<Vec<FrameSource>>,
}

/// A tileset as the map file describes it.
#[derive(Clone, Debug)]
pub struct Tileset {
    pub name: String,
    pub first_gid: u32,
    pub properties: Vec<NamedProperty>,
    pub tiles: Vec<TileSource>,
}

/// The first property of the given name, if there is one.
pub open spec fn spec_find(properties: Seq<NamedProperty>, name: Seq<char>) -> Option<Property>
    decreases properties.len(),
{
    if properties.len() == 0 {
        None
    } else if properties[0].name@ == name {
        Some(properties[0].value)
    } else {
        spec_find(properties.skip(1), name)
    }
}

/// The first property of the given name, if there is one.
pub fn find_property<'a>(properties: &'a Vec<NamedProperty>, name: &str) -> (r: Option<&'a Property>)
    ensures
        r matches Some(value) ==> spec_find(properties@, name@) == Some(*value),
        r is None ==> spec_find(properties@, name@) is None,
{
    let mut i: usize = 0;
    proof {
        assert(properties@.skip(0) =~= properties@);
    }
    while i < properties.len()
        invariant
            i <= properties.len(),
            spec_find(properties@, name@) == spec_find(properties@.skip(i as int), name@),
        decreases properties.len() - i,
    {
        let ghost rest = properties@.skip(i as int);
        proof {
            assert(rest[0] == properties@[i as int]);
            assert(rest.skip(1) =~= properties@.skip(i + 1));
        }
        if crate::text::same_text(properties[i].name.as_str(), name) {
            return Some(&properties[i].value);
        }
        i = i + 1;
    }
    None
}

/// The text of a property that names a file: that of a text or file
/// property, and nothing for any other or for none.
pub open spec fn spec_file_name(property: Option<Property>) -> Option<Seq<char>> {
    match property {
        Some(Property::Text(text)) => Some(text@),
        Some(Property::File(text)) => Some(text@),
        _ => None,
    }
}

/// The text of a property that names a file.
pub fn file_name<'a>(property: Option<&'a Property>) -> (r: Option<&'a String>)
    ensures
        match r {
            Some(text) => spec_file_name(spec_deref(property)) == Some(text@),
            None => spec_file_name(spec_deref(property)) is None,
        },
{
    match property {
        Some(Property::Text(text)) => Some(text),
        Some(Property::File(text)) => Some(text),
        _ => None,
    }
}

/// The property behind an optional reference.
pub open spec fn spec_deref(property: Option<&Property>) -> Option<Property> {
    match property {
        Some(value) => Some(*value),
        None => None,
    }
}

/// The number that a decimal text stands for, as `str::parse::<u64>` reads it.
pub uninterp spec fn parsed_number(text: Seq<char>) -> Option<u64>;

/// `str::parse::<u64>`, taken on trust: the number that the text stands for,
/// and `None` where the text is no decimal number that fits.
#[verifier::external_body]
fn parse_number(text: &str) -> (r: Option<u64>)
    ensures
        r == parsed_number(text@),
{
    text.parse::<u64>().ok()
}

/// The palette row that a parsed number selects: the number where the text
/// was one that fits a `usize`, and row 0 otherwise.
pub open spec fn spec_row_of_parsed(parsed: Option<u64>) -> usize {
    match parsed {
        Some(v) => if v <= usize::MAX {
            v as usize
        } else {
            0
        },
        None => 0,
    }
}

/// The palette row that a parsed number selects.
pub fn row_of_parsed(parsed: Option<u64>) -> (r: usize)
    ensures
        r == spec_row_of_parsed(parsed),
{
    match parsed {
        Some(v) => {
            if v <= usize::MAX as u64 {
                v as usize
            } else {
                0
            }
        },
        None => 0,
    }
}

/// The palette row that a `palette_id` property selects: the value of a
/// number, converted as a cast converts it; what a text parses to; and row 0
/// for anything else or for no property.
pub open spec fn spec_palette_row(property: Option<Property>) -> usize {
    match property {
        Some(Property::Int(v)) => v as usize,
        Some(Property::Color(v)) => v as usize,
        Some(Property::Float(v)) => v,
        Some(Property::Text(text)) => spec_row_of_parsed(parsed_number(text@)),
        _ => 0,
    }
}

/// The palette row that a `palette_id` property selects.
pub fn palette_row(property: Option<&Property>) -> (r: usize)
    ensures
        r == spec_palette_row(spec_deref(property)),
{
    match property {
        Some(Property::Int(v)) => #[verifier::truncate]
        (*v as usize),
        Some(Property::Color(v)) => #[verifier::truncate]
        (*v as usize),
        Some(Property::Float(v)) => *v,
        Some(Property::Text(text)) => row_of_parsed(parse_number(text.as_str())),
        _ => 0,
    }
}

/// One frame of a tile's animation: the tile of the catalog to show, and for
/// how many milliseconds.
#[derive(Clone, Copy, Debug, PartialEq, Eq, Structural)]
pub struct Frame {
    pub tile: usize,
    pub duration: u32,
}

/// A tile of the catalog.
#[derive(Clone, Debug)]
pub struct Tile {
    /// The handle of the tile's texture.
    pub texture: usize,
    /// The size of the tile's sprite, which is also that of its collision box.
    pub width: u32,
    pub height: u32,
    /// The frames of the tile's animation, in order; empty for a still tile.
    pub animation: Vec<Frame>,
    /// The handle of the tile's compiled script, if it has one.
    pub script: Option<usize>,
}

/// What has to be read for one tile before the tile can enter the catalog.
#[derive(Clone, Debug)]
pub struct TileRequest {
    /// The name that the texture is kept under.
    pub texture_name: String,
    /// The file of the sprite image.
    pub image_path: String,
    /// The file of the palette image.
    pub palette_path: String,
    /// The row of the palette image to quantize the sprite with.
    pub palette_id: usize,
    /// The file of the tile's script, if it has one.
    pub script_path: Option<String>,
}

/// What was read for one tile.
#[derive(Clone, Copy, Debug, PartialEq, Eq, Structural)]
pub struct TileAssets {
    /// The handle of the tile's texture.
    pub texture: usize,
    /// The handle of the tile's compiled script, if one was asked for.
    pub script: Option<usize>,
}

/// Why a tileset was refused.
#[derive(Clone, Copy, Debug, PartialEq, Eq, Structural)]
pub enum TilesError {
    /// A tile of the tileset has no image.
    MissingImage,
    /// The assets handed in are not one for each tile.
    AssetCount,
    /// A tile names a script, and no compiled script was handed in for it.
    MissingScript,
    /// The global id of a tile does not fit in 32 bits.
    GidOverflow,
    /// The catalog cannot hold as many tiles.
    TooManyTiles,
    /// A frame of an animation names a tile that the tileset does not hold.
    DanglingFrame,
}

impl TileSource {
    /// The file that the tile's own `palette` property names, if it names one.
    pub open spec fn spec_palette(self) -> Option<Seq<char>> {
        spec_file_name(spec_find(self.properties@, "palette"@))
    }

    /// The palette row that the tile is quantized with.
    pub open spec fn spec_palette_id(self) -> usize {
        spec_palette_row(spec_find(self.properties@, "palette_id"@))
    }

    /// The file that the tile's `script` property names, if it names one.
    pub open spec fn spec_script(self) -> Option<Seq<char>> {
        spec_file_name(spec_find(self.properties@, "script"@))
    }
}

impl Tileset {
    /// The file that the tileset's `palette` property names, if it names one.
    pub open spec fn spec_palette(self) -> Option<Seq<char>> {
        spec_file_name(spec_find(self.properties@, "palette"@))
    }

    /// Whether every tile has an image.
    pub open spec fn spec_has_images(self) -> bool {
        forall|i: int| 0 <= i < self.tiles@.len() ==> (#[trigger] self.tiles@[i]).image is Some
    }

    /// Whether the global id of every tile fits in 32 bits.
    pub open spec fn spec_gids_fit(self) -> bool {
        forall|i: int|
            0 <= i < self.tiles@.len() ==> self.first_gid + (#[trigger] self.tiles@[i]).id <= u32::MAX
    }

    /// Whether a compiled script stands in `assets` for every tile that names
    /// a script.
    pub open spec fn spec_scripts_given(self, assets: Seq<TileAssets>) -> bool {
        forall|i: int|
            0 <= i < self.tiles@.len() && (#[trigger] self.tiles@[i]).spec_script() is Some ==> assets[i].script is Some
    }

    /// The catalog index of the tile that `frame` shows, where the tileset's
    /// tiles stand in the catalog from `offset` on; `None` where the tileset
    /// holds no tile of the frame's id.
    pub open spec fn spec_frame_target(self, offset: int, frame: FrameSource) -> Option<usize> {
        let local = spec_mapped(Map::empty(), self, self.tiles@.len() as int, offset);
        let gid = self.first_gid + frame.tile_id;
        if gid <= u32::MAX && local.contains_key(gid as u32) {
            Some(local[gid as u32])
        } else {
            None
        }
    }

    /// Whether every frame of every animation shows a tile of the tileset.
    pub open spec fn spec_frames_resolve(self, offset: int) -> bool {
        forall|i: int, j: int|
            0 <= i < self.tiles@.len() && (#[trigger] self.tiles@[i]).animation is Some && 0 <= j
                < self.tiles@[i].animation->0@.len() ==> self.spec_frame_target(
                offset,
                #[trigger] self.tiles@[i].animation->0@[j],
            ) is Some
    }
}

/// The lookup `base` after the first `count` tiles of `tileset` were entered,
/// in order: the global id of the tile at place `i` goes to `offset + i`, and
/// a later tile of the same id replaces an earlier one.
pub open spec fn spec_mapped(base: Map<u32, usize>, tileset: Tileset, count: int, offset: int) -> Map<
    u32,
    usize,
>
    decreases count,
{
    if count <= 0 {
        base
    } else {
        spec_mapped(base, tileset, count - 1, offset).insert(
            (tileset.first_gid + tileset.tiles@[count - 1].id) as u32,
            (offset + count - 1) as usize,
        )
    }
}

/// Whether `request` asks for what the tile `source` needs, in a tileset
/// whose palette is `default`.
pub open spec fn spec_request_matches(request: TileRequest, source: TileSource, default: Seq<char>) -> bool {
    &&& source.image is Some
    &&& request.texture_name@ == source.image->0.source@
    &&& request.image_path@ == IMAGES_ROOT@ + source.image->0.source@
    &&& request.palette_path@ == MAP_ROOT@ + (match source.spec_palette() {
        Some(own) => own,
        None => default,
    })
    &&& request.palette_id == source.spec_palette_id()
    &&& match source.spec_script() {
        Some(script) => request.script_path is Some && request.script_path->0@ == MAP_ROOT@ + script,
        None => request.script_path is None,
    }
}

/// Whether `tile` is the catalog's tile for `source`, given the assets read
/// for it, in a tileset whose tiles stand in the catalog from `offset` on.
pub open spec fn spec_tile_matches(
    tile: Tile,
    source: TileSource,
    assets: TileAssets,
    tileset: Tileset,
    offset: int,
) -> bool {
    &&& source.image is Some
    &&& tile.texture == assets.texture
    &&& tile.width == source.image->0.width
    &&& tile.height == source.image->0.height
    &&& tile.script == (if source.spec_script() is Some {
        assets.script
    } else {
        None
    })
    &&& match source.animation {
        Some(frames) => {
            &&& tile.animation@.len() == frames@.len()
            &&& forall|j: int|
                0 <= j < frames@.len() ==> tileset.spec_frame_target(offset, frames@[j]) == Some(
                    (#[trigger] tile.animation@[j]).tile,
                ) && tile.animation@[j].duration == frames@[j].duration
        },
        None => tile.animation@.len() == 0,
    }
}

/// Every entry that a tileset adds to a lookup points into the tileset's
/// stretch of the catalog, and every other entry stays as it was.
pub proof fn lemma_mapped_range(base: Map<u32, usize>, tileset: Tileset, count: int, offset: int, gid: u32)
    requires
        0 <= count <= tileset.tiles@.len(),
        0 <= offset,
        offset + count <= usize::MAX,
    ensures
        spec_mapped(base, tileset, count, offset).contains_key(gid) ==> base.contains_key(gid) && spec_mapped(
            base,
            tileset,
            count,
            offset,
        )[gid] == base[gid] || offset <= spec_mapped(base, tileset, count, offset)[gid] < offset + count,
        base.contains_key(gid) ==> spec_mapped(base, tileset, count, offset).contains_key(gid),
    decreases count,
{
    if count > 0 {
        lemma_mapped_range(base, tileset, count - 1, offset, gid);
    }
}

/// Every tile of a tileset whose global ids fit is entered in the lookup, at
/// its place in the tileset's stretch or at that of a later tile of its id.
pub proof fn lemma_mapped_holds(base: Map<u32, usize>, tileset: Tileset, count: int, offset: int, at: int)
    requires
        0 <= at < count <= tileset.tiles@.len(),
        tileset.spec_gids_fit(),
        0 <= offset,
        offset + count <= usize::MAX,
    ensures
        spec_mapped(base, tileset, count, offset).contains_key(
            (tileset.first_gid + tileset.tiles@[at].id) as u32,
        ),
        offset + at <= spec_mapped(base, tileset, count, offset)[(tileset.first_gid
            + tileset.tiles@[at].id) as u32] < offset + count,
    decreases count,
{
    let gid = (tileset.first_gid + tileset.tiles@[at].id) as u32;
    if at < count - 1 {
        lemma_mapped_holds(base, tileset, count - 1, offset, at);
        assert(tileset.first_gid + tileset.tiles@[count - 1].id <= u32::MAX);
    }
}

/// A tile whose id no later tile of the tileset shares is entered in the
/// lookup at exactly its place in the tileset's stretch of the catalog.
pub proof fn lemma_mapped_exact(base: Map<u32, usize>, tileset: Tileset, count: int, offset: int, at: int)
    requires
        0 <= at < count <= tileset.tiles@.len(),
        tileset.spec_gids_fit(),
        0 <= offset,
        offset + count <= usize::MAX,
        forall|later: int| at < later < count ==> (#[trigger] tileset.tiles@[later]).id != tileset.tiles@[at].id,
    ensures
        spec_mapped(base, tileset, count, offset)[(tileset.first_gid + tileset.tiles@[at].id) as u32]
            == offset + at,
    decreases count,
{
    if at < count - 1 {
        lemma_mapped_exact(base, tileset, count - 1, offset, at);
        assert(tileset.tiles@[count - 1].id != tileset.tiles@[at].id);
        assert(tileset.first_gid + tileset.tiles@[count - 1].id <= u32::MAX);
        assert(tileset.first_gid + tileset.tiles@[at].id <= u32::MAX);
    }
}

/// A tileset loaded under a name that the catalog holds already is not
/// loaded again: nothing is asked for, the catalog stays as it is, and the
/// tileset's tiles are numbered by their places from the offset that the
/// first load under that name kept.
pub proof fn lemma_reload_is_positional(
    before: Tiles,
    after: Tiles,
    first: Tileset,
    assets: Seq<TileAssets>,
    again: Tileset,
    base: Map<u32, usize>,
    at: int,
)
    requires
        before.wf(),
        !before.names().contains(first.name@),
        after.spec_extends(before, first, assets),
        again.name@ == first.name@,
        again.spec_gids_fit(),
        0 <= at < again.tiles@.len(),
        before.tiles().len() + again.tiles@.len() <= usize::MAX,
        forall|later: int|
            at < later < again.tiles@.len() ==> (#[trigger] again.tiles@[later]).id != again.tiles@[at].id,
    ensures
        after.names().contains(again.name@),
        after.spec_admits(again),
        after.spec_plan_error(again) is None,
        after.spec_offset(again) == before.tiles().len(),
        after.spec_load_error(again, Seq::empty()) is None,
        spec_mapped(base, again, again.tiles@.len() as int, after.spec_offset(again))[(again.first_gid
            + again.tiles@[at].id) as u32] == before.tiles().len() + at,
{
    let names = before.names();
    let place = names.len() as int;
    assert(after.names()[place] == again.name@);
    assert forall|i: int, j: int|
        0 <= i < after.names().len() && 0 <= j < after.names().len() && i != j implies after.names()[i]
        != after.names()[j] by {
        if i < place && j < place {
        } else if i < place {
            assert(names[i] != first.name@);
        } else {
            assert(names[j] != first.name@);
        }
    }
    crate::names::lemma_position_unique(after.names(), again.name@, place);
    lemma_mapped_exact(base, again, again.tiles@.len() as int, before.tiles().len() as int, at);
}

/// Whether every tile of the tileset has an image.
fn has_images(tileset: &Tileset) -> (r: bool)
    ensures
        r == tileset.spec_has_images(),
{
    let mut i: usize = 0;
    while i < tileset.tiles.len()
        invariant
            i <= tileset.tiles.len(),
            forall|k: int| 0 <= k < i ==> (#[trigger] tileset.tiles@[k]).image is Some,
        decreases tileset.tiles.len() - i,
    {
        if tileset.tiles[i].image.is_none() {
            proof {
                assert(tileset.tiles@[i as int].image is None);
            }
            return false;
        }
        i = i + 1;
    }
    true
}

/// Whether the global id of every tile of the tileset fits in 32 bits.
fn gids_fit(tileset: &Tileset) -> (r: bool)
    ensures
        r == tileset.spec_gids_fit(),
{
    let mut i: usize = 0;
    while i < tileset.tiles.len()
        invariant
            i <= tileset.tiles.len(),
            forall|k: int| 0 <= k < i ==> tileset.first_gid + (#[trigger] tileset.tiles@[k]).id <= u32::MAX,
        decreases tileset.tiles.len() - i,
    {
        if tileset.first_gid.checked_add(tileset.tiles[i].id).is_none() {
            proof {
                assert(tileset.first_gid + tileset.tiles@[i as int].id > u32::MAX);
            }
            return false;
        }
        i = i + 1;
    }
    true
}

/// Whether a compiled script was handed in for every tile that names one.
fn scripts_given(tileset: &Tileset, assets: &Vec<TileAssets>) -> (r: bool)
    requires
        assets@.len() == tileset.tiles@.len(),
    ensures
        r == tileset.spec_scripts_given(assets@),
{
    let mut i: usize = 0;
    while i < tileset.tiles.len()
        invariant
            i <= tileset.tiles.len(),
            assets@.len() == tileset.tiles@.len(),
            forall|k: int|
                0 <= k < i && (#[trigger] tileset.tiles@[k]).spec_script() is Some ==> assets@[k].script is Some,
        decreases tileset.tiles.len() - i,
    {
        let wanted = file_name(find_property(&tileset.tiles[i].properties, "script")).is_some();
        if wanted && assets[i].script.is_none() {
            proof {
                assert(tileset.tiles@[i as int].spec_script() is Some);
            }
            return false;
        }
        i = i + 1;
    }
    true
}

/// Enters the tiles of the tileset in `lookup`, the tile at place `i` under
/// its global id with the catalog index `offset + i`.
fn enter(tileset: &Tileset, offset: usize, lookup: &mut HashMap<u32, usize>)
    requires
        tileset.spec_gids_fit(),
        offset + tileset.tiles@.len() <= usize::MAX,
    ensures
        final(lookup)@ == spec_mapped(old(lookup)@, *tileset, tileset.tiles@.len() as int, offset as int),
{
    let mut i: usize = 0;
    while i < tileset.tiles.len()
        invariant
            i <= tileset.tiles.len(),
            tileset.spec_gids_fit(),
            offset + tileset.tiles@.len() <= usize::MAX,
            lookup@ == spec_mapped(old(lookup)@, *tileset, i as int, offset as int),
        decreases tileset.tiles.len() - i,
    {
        proof {
            assert(tileset.first_gid + tileset.tiles@[i as int].id <= u32::MAX);
        }
        lookup.insert(tileset.first_gid + tileset.tiles[i].id, offset + i);
        i = i + 1;
    }
}

/// The frames of one animation, each with the catalog index of the tile it
/// shows; `None` where a frame shows a tile that the tileset does not hold.
fn resolve_frames(
    tileset: &Tileset,
    local: &HashMap<u32, usize>,
    offset: usize,
    frames: &Vec<FrameSource>,
) -> (r: Option<Vec<Frame>>)
    requires
        local@ == spec_mapped(Map::empty(), *tileset, tileset.tiles@.len() as int, offset as int),
    ensures
        r is Some <==> forall|j: int|
            0 <= j < frames@.len() ==> tileset.spec_frame_target(offset as int, #[trigger] frames@[j]) is Some,
        r matches Some(animation) ==> animation@.len() == frames@.len() && forall|j: int|
            0 <= j < frames@.len() ==> tileset.spec_frame_target(offset as int, frames@[j]) == Some(
                (#[trigger] animation@[j]).tile,
            ) && animation@[j].duration == frames@[j].duration,
{
    let mut animation: Vec<Frame> = Vec::new();
    let mut j: usize = 0;
    while j < frames.len()
        invariant
            j <= frames.len(),
            animation@.len() == j,
            local@ == spec_mapped(Map::empty(), *tileset, tileset.tiles@.len() as int, offset as int),
            forall|k: int|
                0 <= k < j ==> tileset.spec_frame_target(offset as int, frames@[k]) == Some(
                    (#[trigger] animation@[k]).tile,
                ) && animation@[k].duration == frames@[k].duration,
            forall|k: int|
                0 <= k < j ==> tileset.spec_frame_target(offset as int, #[trigger] frames@[k]) is Some,
        decreases frames.len() - j,
    {
        let frame = frames[j];
        let gid = match tileset.first_gid.checked_add(frame.tile_id) {
            Some(gid) => gid,
            None => {
                proof {
                    assert(tileset.spec_frame_target(offset as int, frames@[j as int]) is None);
                }
                return None;
            },
        };
        let tile = match local.get(&gid) {
            Some(tile) => *tile,
            None => {
                proof {
                    assert(tileset.spec_frame_target(offset as int, frames@[j as int]) is None);
                }
                return None;
            },
        };
        animation.push(Frame { tile, duration: frame.duration });
        j = j + 1;
    }
    Some(animation)
}

/// The tiles that the tileset adds to the catalog; `None` where a frame of
/// an animation shows a tile that the tileset does not hold.
fn build(tileset: &Tileset, assets: &Vec<TileAssets>, local: &HashMap<u32, usize>, offset: usize) -> (r:
    Option<Vec<Tile>>)
    requires
        assets@.len() == tileset.tiles@.len(),
        tileset.spec_has_images(),
        local@ == spec_mapped(Map::empty(), *tileset, tileset.tiles@.len() as int, offset as int),
    ensures
        r is Some <==> tileset.spec_frames_resolve(offset as int),
        r matches Some(tiles) ==> tiles@.len() == tileset.tiles@.len() && forall|i: int|
            0 <= i < tiles@.len() ==> spec_tile_matches(
                #[trigger] tiles@[i],
                tileset.tiles@[i],
                assets@[i],
                *tileset,
                offset as int,
            ),
{
    let mut tiles: Vec<Tile> = Vec::new();
    let mut i: usize = 0;
    while i < tileset.tiles.len()
        invariant
            i <= tileset.tiles.len(),
            tiles@.len() == i,
            assets@.len() == tileset.tiles@.len(),
            tileset.spec_has_images(),
            local@ == spec_mapped(Map::empty(), *tileset, tileset.tiles@.len() as int, offset as int),
            forall|k: int|
                0 <= k < i ==> spec_tile_matches(
                    #[trigger] tiles@[k],
                    tileset.tiles@[k],
                    assets@[k],
                    *tileset,
                    offset as int,
                ),
            forall|k: int, j: int|
                0 <= k < i && (#[trigger] tileset.tiles@[k]).animation is Some && 0 <= j
                    < tileset.tiles@[k].animation->0@.len() ==> tileset.spec_frame_target(
                    offset as int,
                    #[trigger] tileset.tiles@[k].animation->0@[j],
                ) is Some,
        decreases tileset.tiles.len() - i,
    {
        let source = &tileset.tiles[i];
        let (width, height) = match &source.image {
            Some(image) => (image.width, image.height),
            None => (0, 0),
        };
        let animation = match &source.animation {
            Some(frames) => match resolve_frames(tileset, local, offset, frames) {
                Some(animation) => animation,
                None => {
                    proof {
                        let j = choose|j: int|
                            0 <= j < frames@.len() && !(tileset.spec_frame_target(
                                offset as int,
                                #[trigger] frames@[j],
                            ) is Some);
                        assert(tileset.tiles@[i as int].animation is Some);
                        assert(tileset.spec_frame_target(
                            offset as int,
                            tileset.tiles@[i as int].animation->0@[j],
                        ) is None);
                    }
                    return None;
                },
            },
            None => Vec::new(),
        };
        let script = if file_name(find_property(&source.properties, "script")).is_some() {
            assets[i].script
        } else {
            None
        };
        tiles.push(Tile { texture: assets[i].texture, width, height, animation, script });
        i = i + 1;
    }
    Some(tiles)
}

/// The tile catalog.
pub struct Tiles {
    tiles: Vec<Tile>,
    names: NameTable,
    offsets: Vec<usize>,
}

impl Tiles {
    /// The tiles of the catalog, by index.
    pub closed spec fn tiles(self) -> Seq<Tile> {
        self.tiles@
    }

    /// The names of the tilesets loaded, in the order they were loaded.
    pub closed spec fn names(self) -> Seq<Seq<char>> {
        self.names.names()
    }

    /// For each tileset loaded, the catalog index of its first tile.
    pub closed spec fn offsets(self) -> Seq<usize> {
        self.offsets@
    }

    /// No tileset name stands twice, each has its offset, and every frame of
    /// every animation shows a tile of the catalog.
    pub open spec fn wf(self) -> bool {
        &&& self.names().no_duplicates()
        &&& self.offsets().len() == self.names().len()
        &&& forall|t: int, f: int|
            0 <= t < self.tiles().len() && 0 <= f < (#[trigger] self.tiles()[t]).animation@.len()
                ==> (#[trigger] self.tiles()[t].animation@[f]).tile < self.tiles().len()
    }

    /// Whether two catalogs hold the same tiles and the same tilesets.
    pub open spec fn same_as(self, other: Tiles) -> bool {
        &&& self.tiles() == other.tiles()
        &&& self.names() == other.names()
        &&& self.offsets() == other.offsets()
    }

    /// The catalog index that the first tile of `tileset` gets or has: the
    /// offset kept under the tileset's name, and the end of the catalog for a
    /// tileset that is new.
    pub open spec fn spec_offset(self, tileset: Tileset) -> int {
        if self.names().contains(tileset.name@) {
            self.offsets()[self.names().index_of(tileset.name@)] as int
        } else {
            self.tiles().len() as int
        }
    }

    /// Whether `tileset` can be taken in: a tileset that is new to the
    /// catalog has to name its palette in a `palette` property of text or
    /// file kind. Loading a new tileset without one is a fault of the
    /// caller, not an error of the load.
    pub open spec fn spec_admits(self, tileset: Tileset) -> bool {
        self.names().contains(tileset.name@) || tileset.spec_palette() is Some
    }

    /// Why `tileset` cannot be asked for, if it cannot.
    pub open spec fn spec_plan_error(self, tileset: Tileset) -> Option<TilesError> {
        if self.names().contains(tileset.name@) {
            None
        } else if !tileset.spec_has_images() {
            Some(TilesError::MissingImage)
        } else {
            None
        }
    }

    /// Why `tileset` cannot be loaded with `assets`, if it cannot.
    pub open spec fn spec_load_error(self, tileset: Tileset, assets: Seq<TileAssets>) -> Option<TilesError> {
        let count = tileset.tiles@.len();
        if self.names().contains(tileset.name@) {
            if !tileset.spec_gids_fit() {
                Some(TilesError::GidOverflow)
            } else if self.spec_offset(tileset) + count > usize::MAX {
                Some(TilesError::TooManyTiles)
            } else {
                None
            }
        } else if assets.len() != count {
            Some(TilesError::AssetCount)
        } else if !tileset.spec_has_images() {
            Some(TilesError::MissingImage)
        } else if !tileset.spec_scripts_given(assets) {
            Some(TilesError::MissingScript)
        } else if !tileset.spec_gids_fit() {
            Some(TilesError::GidOverflow)
        } else if self.tiles().len() + count > usize::MAX {
            Some(TilesError::TooManyTiles)
        } else if !tileset.spec_frames_resolve(self.tiles().len() as int) {
            Some(TilesError::DanglingFrame)
        } else {
            None
        }
    }

    /// The empty catalog.
    pub fn new() -> (r: Tiles)
        ensures
            r.wf(),
            r.tiles().len() == 0,
            r.names().len() == 0,
    {
        Tiles { tiles: Vec::new(), names: NameTable::new(), offsets: Vec::new() }
    }

    /// The number of tiles in the catalog.
    pub fn len(&self) -> (r: usize)
        ensures
            r == self.tiles().len(),
    {
        self.tiles.len()
    }

    /// The tile at `index`; `None` where the catalog has none there.
    pub fn get(&self, index: usize) -> (r: Option<&Tile>)
        ensures
            r is Some <==> index < self.tiles().len(),
            r matches Some(tile) ==> *tile == self.tiles()[index as int],
    {
        if index < self.tiles.len() {
            Some(&self.tiles[index])
        } else {
            None
        }
    }

    /// Whether `tileset` can be taken in by [`Tiles::plan`] and
    /// [`Tiles::load`]: its name was loaded before, or it names its palette.
    pub fn admits(&self, tileset: &Tileset) -> (r: bool)
        requires
            self.wf(),
        ensures
            r == self.spec_admits(*tileset),
    {
        self.names.find(tileset.name.as_str()).is_some() || file_name(
            find_property(&tileset.properties, "palette"),
        ).is_some()
    }

    /// Whether a tileset of this name was loaded.
    pub fn is_loaded(&self, name: &str) -> (r: bool)
        requires
            self.wf(),
        ensures
            r == self.names().contains(name@),
    {
        self.names.find(name).is_some()
    }

    /// What has to be read before `tileset` can be loaded: one request for
    /// each tile, in order, and none at all for a tileset whose name was
    /// loaded before. The tileset has to be one that [`Tiles::admits`].
    pub fn plan(&self, tileset: &Tileset) -> (r: Result<Vec<TileRequest>, TilesError>)
        requires
            self.wf(),
            self.spec_admits(*tileset),
        ensures
            match r {
                Err(e) => self.spec_plan_error(*tileset) == Some(e),
                Ok(requests) => {
                    &&& self.spec_plan_error(*tileset) is None
                    &&& self.names().contains(tileset.name@) ==> requests@.len() == 0
                    &&& !self.names().contains(tileset.name@) ==> requests@.len()
                        == tileset.tiles@.len() && forall|i: int|
                        0 <= i < requests@.len() ==> spec_request_matches(
                            #[trigger] requests@[i],
                            tileset.tiles@[i],
                            tileset.spec_palette()->0,
                        )
                },
            },
    {
        if self.names.find(tileset.name.as_str()).is_some() {
            return Ok(Vec::new());
        }
        let default = match file_name(find_property(&tileset.properties, "palette")) {
            Some(text) => text,
            None => vstd::pervasive::unreached(),
        };
        let mut requests: Vec<TileRequest> = Vec::new();
        let mut i: usize = 0;
        while i < tileset.tiles.len()
            invariant
                i <= tileset.tiles.len(),
                requests@.len() == i,
                !self.names().contains(tileset.name@),
                tileset.spec_palette() == Some(default@),
                forall|k: int| 0 <= k < i ==> (#[trigger] tileset.tiles@[k]).image is Some,
                forall|k: int|
                    0 <= k < i ==> spec_request_matches(#[trigger] requests@[k], tileset.tiles@[k], default@),
            decreases tileset.tiles.len() - i,
        {
            let tile = &tileset.tiles[i];
            let image = match &tile.image {
                Some(image) => image,
                None => {
                    proof {
                        assert(tileset.tiles@[i as int].image is None);
                    }
                    return Err(TilesError::MissingImage);
                },
            };
            let palette = match file_name(find_property(&tile.properties, "palette")) {
                Some(own) => own,
                None => default,
            };
            let script_path = match file_name(find_property(&tile.properties, "script")) {
                Some(script) => Some(join_path(MAP_ROOT, script.as_str())),
                None => None,
            };
            let request = TileRequest {
                texture_name: image.source.clone(),
                image_path: join_path(IMAGES_ROOT, image.source.as_str()),
                palette_path: join_path(MAP_ROOT, palette.as_str()),
                palette_id: palette_row(find_property(&tile.properties, "palette_id")),
                script_path,
            };
            requests.push(request);
            i = i + 1;
        }
        Ok(requests)
    }

    /// Loads `tileset` and enters its tiles in `lookup`, the tile at place
    /// `i` under its global id with the catalog index `offset + i`.
    ///
    /// For a new tileset, `offset` is the end of the catalog: the tiles are
    /// appended with the assets read for them, and then the frames of their
    /// animations are pointed at the catalog, since a frame may show a tile
    /// that comes later in the tileset. For a tileset whose name was loaded
    /// before, `offset` is the one kept under that name: the catalog stays as
    /// it is and `assets` is not looked at. A tileset that is refused leaves
    /// the catalog and `lookup` as they were. The tileset has to be one that
    /// [`Tiles::admits`].
    pub fn load(&mut self, tileset: &Tileset, assets: &Vec<TileAssets>, lookup: &mut HashMap<u32, usize>) -> (r:
        Result<(), TilesError>)
        requires
            old(self).wf(),
            old(self).spec_admits(*tileset),
        ensures
            final(self).wf(),
            match r {
                Err(e) => {
                    &&& old(self).spec_load_error(*tileset, assets@) == Some(e)
                    &&& final(self).same_as(*old(self))
                    &&& final(lookup)@ == old(lookup)@
                },
                Ok(_) => {
                    &&& old(self).spec_load_error(*tileset, assets@) is None
                    &&& final(lookup)@ == spec_mapped(
                        old(lookup)@,
                        *tileset,
                        tileset.tiles@.len() as int,
                        old(self).spec_offset(*tileset),
                    )
                    &&& old(self).names().contains(tileset.name@) ==> final(self).same_as(*old(self))
                    &&& !old(self).names().contains(tileset.name@) ==> final(self).spec_extends(
                        *old(self),
                        *tileset,
                        assets@,
                    )
                },
            },
    {
        let count = tileset.tiles.len();
        match self.names.find(tileset.name.as_str()) {
            Some(index) => {
                if !gids_fit(tileset) {
                    return Err(TilesError::GidOverflow);
                }
                let offset = self.offsets[index];
                if offset > usize::MAX - count {
                    return Err(TilesError::TooManyTiles);
                }
                enter(tileset, offset, lookup);
                Ok(())
            },
            None => {
                if assets.len() != count {
                    return Err(TilesError::AssetCount);
                }
                if !has_images(tileset) {
                    return Err(TilesError::MissingImage);
                }
                if !scripts_given(tileset, assets) {
                    return Err(TilesError::MissingScript);
                }
                if !gids_fit(tileset) {
                    return Err(TilesError::GidOverflow);
                }
                let offset = self.tiles.len();
                if offset > usize::MAX - count {
                    return Err(TilesError::TooManyTiles);
                }
                let mut local: HashMap<u32, usize> = HashMap::new();
                enter(tileset, offset, &mut local);
                let mut added = match build(tileset, assets, &local, offset) {
                    Some(added) => added,
                    None => {
                        return Err(TilesError::DanglingFrame);
                    },
                };
                proof {
                    assert forall|t: int, f: int|
                        0 <= t < added@.len() && 0 <= f < (#[trigger] added@[t]).animation@.len() implies (
                    #[trigger] added@[t].animation@[f]).tile < offset + count by {
                        let frames = tileset.tiles@[t].animation->0;
                        assert(spec_tile_matches(
                            added@[t],
                            tileset.tiles@[t],
                            assets@[t],
                            *tileset,
                            offset as int,
                        ));
                        let gid = (tileset.first_gid + frames@[f].tile_id) as u32;
                        lemma_mapped_range(Map::empty(), *tileset, count as int, offset as int, gid);
                    }
                }
                let ghost before = self.tiles@;
                self.names.intern(tileset.name.as_str());
                self.offsets.push(offset);
                self.tiles.append(&mut added);
                enter(tileset, offset, lookup);
                proof {
                    assert forall|i: int| 0 <= i < count implies spec_tile_matches(
                        #[trigger] self.tiles@[offset + i],
                        tileset.tiles@[i],
                        assets@[i],
                        *tileset,
                        offset as int,
                    ) by {}
                }
                Ok(())
            },
        }
    }

    /// Whether this catalog is `before` with the new tileset `tileset`
    /// appended: the tiles of `before` stay where they are, the tileset's
    /// tiles follow them in order, each with the assets read for it, and the
    /// tileset's name is kept with the index of its first tile.
    pub open spec fn spec_extends(self, before: Tiles, tileset: Tileset, assets: Seq<TileAssets>) -> bool {
        let offset = before.tiles().len() as int;
        &&& self.names() == before.names().push(tileset.name@)
        &&& self.offsets() == before.offsets().push(offset as usize)
        &&& self.tiles().len() == offset + tileset.tiles@.len()
        &&& forall|i: int| 0 <= i < offset ==> #[trigger] self.tiles()[i] == before.tiles()[i]
        &&& forall|i: int|
            0 <= i < tileset.tiles@.len() ==> spec_tile_matches(
                #[trigger] self.tiles()[offset + i],
                tileset.tiles@[i],
                assets[i],
                tileset,
                offset,
            )
    }
}

} // verus!
