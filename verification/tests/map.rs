use std::collections::HashMap;
use tilemap_core::map::{
    clear_color, groups_meet, Group, place_object, resolve_cell, Collider, DrawCall, MapError, MapObject, MapSource,
    MapTile, ObjectSource, Placement, Rgb, TileMap, DRAW_CELL,
};
use tilemap_core::movement::{contact_partner, ContactEvent, Fraction};
use tilemap_core::object::{Object, SUBUNITS};
use tilemap_core::tiles::{
    FrameSource, ImageSource, NamedProperty, Property, TileAssets, TileSource, Tiles, Tileset,
};

fn tile(id: u32, width: u32, height: u32) -> TileSource {
    TileSource {
        id,
        image: Some(ImageSource { source: format!("{}.png", id), width, height }),
        properties: vec![],
        animation: None,
    }
}

fn catalog() -> (Tiles, HashMap<u32, usize>) {
    let mut animated = tile(2, 16, 16);
    animated.animation = Some(vec![
        FrameSource { tile_id: 0, duration: 200 },
        FrameSource { tile_id: 1, duration: 500 },
    ]);
    let set = Tileset {
        name: "ground".to_string(),
        first_gid: 1,
        properties: vec![NamedProperty {
            name: "palette".to_string(),
            value: Property::Text("main.png".to_string()),
        }],
        tiles: vec![tile(0, 16, 16), tile(1, 8, 24), animated],
    };
    let assets = vec![
        TileAssets { texture: 100, script: None },
        TileAssets { texture: 101, script: None },
        TileAssets { texture: 102, script: None },
    ];
    let mut tiles = Tiles::new();
    let mut lookup = HashMap::new();
    tiles.load(&set, &assets, &mut lookup).unwrap();
    (tiles, lookup)
}

fn source(width: u32, height: u32, layers: Vec<Vec<Vec<u32>>>, objects: Vec<ObjectSource>) -> MapSource {
    MapSource { width, height, tile_width: 16, tile_height: 16, layers, objects, background: None }
}

const U: i64 = SUBUNITS;

/// An object authored at a place in whole world units and an angle in whole
/// degrees.
fn object_at(gid: u32, x: i64, y: i64, degrees: i64) -> ObjectSource {
    ObjectSource { gid, x: x * U, y: y * U, rotation: degrees * U }
}

/// An object at a place in whole world units.
fn object(width: u32, height: u32, x: i64, y: i64, rotation: usize, flipped: bool) -> Object {
    Object::new(width, height, x * U, y * U, rotation, flipped)
}

#[test]
fn cell_is_resolved_through_the_lookup() {
    let (_, lookup) = catalog();
    assert_eq!(resolve_cell(&lookup, 3, 1), Some(MapTile { tile: 0, rotation: 0, flipped: false }));
    assert_eq!(
        resolve_cell(&lookup, 3, 0xa000_0002),
        Some(MapTile { tile: 1, rotation: 1, flipped: false })
    );
    assert_eq!(
        resolve_cell(&lookup, 3, 0x4000_0003),
        Some(MapTile { tile: 2, rotation: 2, flipped: true })
    );
    assert_eq!(resolve_cell(&lookup, 3, 0), None);
    assert_eq!(resolve_cell(&lookup, 3, 9), None);
    assert_eq!(resolve_cell(&lookup, 1, 2), None);
}

#[test]
fn unknown_cells_stay_empty() {
    let (tiles, lookup) = catalog();
    let map = TileMap::load(&source(3, 2, vec![vec![vec![1, 0, 77], vec![0, 2, 0]]], vec![]), &tiles, &lookup)
        .unwrap();
    assert_eq!((map.columns(), map.rows()), (3, 2));
    assert_eq!(map.tile_at(0, 0), Some(MapTile { tile: 0, rotation: 0, flipped: false }));
    assert_eq!(map.tile_at(1, 0), None);
    assert_eq!(map.tile_at(2, 0), None);
    assert_eq!(map.tile_at(1, 1), Some(MapTile { tile: 1, rotation: 0, flipped: false }));
    assert_eq!(map.tile_at(3, 0), None);
    assert_eq!(map.tile_at(0, 2), None);
}

#[test]
fn upper_layer_covers_the_lower() {
    let (tiles, lookup) = catalog();
    let layers = vec![vec![vec![1, 1, 0]], vec![vec![2, 0, 0]], vec![vec![0, 99, 3]]];
    let map = TileMap::load(&source(3, 1, layers, vec![]), &tiles, &lookup).unwrap();
    assert_eq!(map.tile_at(0, 0).unwrap().tile, 1);
    assert_eq!(map.tile_at(1, 0).unwrap().tile, 0);
    assert_eq!(map.tile_at(2, 0).unwrap().tile, 2);
    assert_eq!(map.placements().len(), 3);
}

#[test]
fn placements_are_in_grid_order() {
    let (tiles, lookup) = catalog();
    let layers = vec![vec![vec![0, 0xe000_0001], vec![2, 0]]];
    let map = TileMap::load(&source(2, 2, layers, vec![]), &tiles, &lookup).unwrap();
    assert_eq!(
        map.placements(),
        vec![
            Placement { x: 1, y: 0, tile: MapTile { tile: 0, rotation: 1, flipped: true } },
            Placement { x: 0, y: 1, tile: MapTile { tile: 1, rotation: 0, flipped: false } },
        ]
    );
}

#[test]
fn object_anchor_follows_its_rotation() {
    let (tiles, lookup) = catalog();
    let placed = |degrees: i64| place_object(&lookup, &tiles, &object_at(2, 100, 200, degrees)).unwrap();
    assert_eq!(placed(0), MapObject { tile: 1, object: object(8, 24, 100, 176, 0, false) });
    assert_eq!(placed(90), MapObject { tile: 1, object: object(8, 24, 100, 200, 1, false) });
    assert_eq!(placed(180), MapObject { tile: 1, object: object(8, 24, 92, 200, 2, false) });
    assert_eq!(placed(270), MapObject { tile: 1, object: object(8, 24, 92, 176, 3, false) });
    assert_eq!(placed(-90), placed(270));
    assert_eq!(placed(50), placed(90));
}

#[test]
fn object_keeps_the_parts_of_its_place_and_angle() {
    let (tiles, lookup) = catalog();
    let authored = ObjectSource { gid: 2, x: 100 * U + 7, y: 200 * U + U / 2, rotation: 446 * U / 10 };
    let placed = place_object(&lookup, &tiles, &authored).unwrap();
    assert_eq!(placed.object.rotation, 0);
    assert_eq!((placed.object.x, placed.object.y), (100 * U + 7, 176 * U + U / 2));
}

#[test]
fn object_flip_and_unknown_tile() {
    let (tiles, lookup) = catalog();
    let flipped = place_object(&lookup, &tiles, &object_at(0x8000_0001, 0, 16, 0)).unwrap();
    assert_eq!(flipped, MapObject { tile: 0, object: object(16, 16, 0, 0, 0, true) });
    assert_eq!(place_object(&lookup, &tiles, &object_at(9, 0, 0, 0)), None);
    assert_eq!(place_object(&lookup, &tiles, &object_at(0, 0, 0, 0)), None);
}

#[test]
fn load_refuses_bad_maps() {
    let (tiles, lookup) = catalog();
    let short_row = source(2, 1, vec![vec![vec![1]]], vec![]);
    assert_eq!(TileMap::load(&short_row, &tiles, &lookup).err(), Some(MapError::RaggedLayer));
    let extra_row = source(1, 1, vec![vec![vec![1], vec![1]]], vec![]);
    assert_eq!(TileMap::load(&extra_row, &tiles, &lookup).err(), Some(MapError::RaggedLayer));
    let mut huge = source(u32::MAX, 0, vec![], vec![]);
    huge.tile_width = u32::MAX;
    assert_eq!(TileMap::load(&huge, &tiles, &lookup).err(), Some(MapError::TooLarge));
    let stray = source(1, 1, vec![vec![vec![1]]], vec![object_at(1, 0, 0, 0), object_at(50, 0, 0, 0)]);
    assert_eq!(TileMap::load(&stray, &tiles, &lookup).err(), Some(MapError::UnknownObjectTile));
}

#[test]
fn background_defaults_to_opaque_black() {
    assert_eq!(clear_color(None), [0, 0, 0, 255]);
    assert_eq!(clear_color(Some(Rgb { red: 1, green: 2, blue: 3 })), [1, 2, 3, 255]);
    let (tiles, lookup) = catalog();
    let mut described = source(1, 1, vec![], vec![]);
    assert_eq!(TileMap::load(&described, &tiles, &lookup).unwrap().clear(), [0, 0, 0, 255]);
    described.background = Some(Rgb { red: 10, green: 20, blue: 30 });
    assert_eq!(TileMap::load(&described, &tiles, &lookup).unwrap().clear(), [10, 20, 30, 255]);
}

#[test]
fn colliders_are_walls_then_tiles_then_objects() {
    let (tiles, lookup) = catalog();
    let described = source(2, 2, vec![vec![vec![0, 1], vec![2, 0]]], vec![object_at(1, 5, 16, 0)]);
    let map = TileMap::load(&described, &tiles, &lookup).unwrap();
    assert_eq!(
        map.colliders(),
        vec![
            Collider::Wall { x: 0, y: 0, normal_x: 1, normal_y: 0 },
            Collider::Wall { x: 32, y: 0, normal_x: -1, normal_y: 0 },
            Collider::Wall { x: 0, y: 0, normal_x: 0, normal_y: 1 },
            Collider::Wall { x: 0, y: 32, normal_x: 0, normal_y: -1 },
            Collider::Tile { x: 16, y: 0, tile: 0 },
            Collider::Tile { x: 0, y: 16, tile: 1 },
            Collider::Object { x: 5 * U, y: 0, tile: 0, object: 0 },
        ]
    );
    assert_eq!(map.object_handle(0), Some(6));
    assert_eq!(map.object_handle(1), None);
    assert_eq!(map.object_of(6), Some(0));
    assert_eq!(map.object_of(5), None);
    assert_eq!(map.object_of(7), None);
    assert_eq!(map.object_count(), 1);
}

#[test]
fn draw_calls_are_tiles_then_objects() {
    let (tiles, lookup) = catalog();
    let described = source(
        2,
        1,
        vec![vec![vec![0x8000_0003, 2]]],
        vec![object_at(0x8000_0002, 40, 24, 180)],
    );
    let map = TileMap::load(&described, &tiles, &lookup).unwrap();
    assert_eq!(DRAW_CELL, 256);
    assert_eq!(
        map.draw_calls(&tiles, 0),
        vec![
            DrawCall { texture: 100, rotation: 0, x: 0, y: 0, flip: -1 },
            DrawCall { texture: 101, rotation: 0, x: 256, y: 0, flip: 1 },
            DrawCall { texture: 101, rotation: 2, x: 32, y: 24, flip: -1 },
        ]
    );
    let later = map.draw_calls(&tiles, 350);
    assert_eq!(later[0], DrawCall { texture: 101, rotation: 0, x: 0, y: 0, flip: -1 });
    assert_eq!(later[1].texture, 101);
}

#[test]
fn scripted_change_replaces_the_object() {
    let (tiles, lookup) = catalog();
    let described = source(1, 1, vec![], vec![object_at(1, 0, 16, 0)]);
    let mut map = TileMap::load(&described, &tiles, &lookup).unwrap();
    let mut changed = map.object(0).unwrap().object;
    changed.move_by(3 * U, 4 * U);
    changed.rotate(6);
    assert!(map.set_object(0, changed));
    assert_eq!(map.object(0), Some(MapObject { tile: 0, object: changed }));
    assert!(!map.set_object(1, changed));
    let mut broken = changed;
    broken.rotation = 4;
    assert!(!map.set_object(0, broken));
    assert_eq!(map.object(0).unwrap().object, changed);
    assert_eq!(map.object(1), None);
}

#[test]
fn object_at_the_wall_does_not_leave_the_map() {
    let (tiles, lookup) = catalog();
    let described = source(2, 1, vec![vec![vec![1, 0]]], vec![object_at(1, 0, 16, 0)]);
    let mut map = TileMap::load(&described, &tiles, &lookup).unwrap();
    assert_eq!(map.tile_at(0, 0).unwrap().tile, 0);
    let handle = map.object_handle(0).unwrap();
    assert_eq!(handle, 5);

    let mut object = map.object(0).unwrap().object;
    assert_eq!((object.x, object.y), (0, 0));
    object.move_by(-50 * U, 0);
    assert!(map.set_object(0, object));
    assert_eq!(object.candidate_position(), (-50 * U, 0));

    let events = [ContactEvent::Started(0, handle), ContactEvent::Started(1, 2)];
    let mut impacts = Vec::new();
    for event in &events {
        if let Some(other) = contact_partner(event, handle) {
            assert_eq!(other, 0);
            impacts.push(Fraction::new(0, 1));
        }
    }
    assert_eq!(impacts.len(), 1);
    assert!(map.advance_object(0, &impacts));
    let after = map.object(0).unwrap().object;
    assert!(after.x >= 0);
    assert_eq!((after.x, after.y), (0, 0));
    assert_eq!((after.move_x, after.move_y), (0, 0));
    assert!(!map.advance_object(1, &impacts));
}

#[test]
fn free_object_moves_by_its_whole_step() {
    let (tiles, lookup) = catalog();
    let described = source(4, 4, vec![], vec![object_at(1, 10, 26, 0)]);
    let mut map = TileMap::load(&described, &tiles, &lookup).unwrap();
    let mut object = map.object(0).unwrap().object;
    object.move_by(10 * U, 0);
    map.set_object(0, object);
    assert!(map.advance_object(0, &vec![]));
    let after = map.object(0).unwrap().object;
    assert_eq!((after.x, after.y), (20 * U, 10 * U));
    assert_eq!((after.move_x, after.move_y), (0, 0));
    assert_eq!(map.colliders()[4], Collider::Object { x: 20 * U, y: 10 * U, tile: 0, object: 0 });
    assert_eq!(map.draw_calls(&tiles, 0)[0], DrawCall { texture: 100, rotation: 0, x: 20, y: 10, flip: 1 });

    let mut nudged = after;
    nudged.move_by(U / 2, -1);
    map.set_object(0, nudged);
    map.advance_object(0, &vec![]);
    assert_eq!(map.colliders()[4], Collider::Object { x: 20 * U + U / 2, y: 10 * U - 1, tile: 0, object: 0 });
    assert_eq!(map.draw_calls(&tiles, 0)[0], DrawCall { texture: 100, rotation: 0, x: 20, y: 9, flip: 1 });
}

#[test]
fn loaded_map_is_valid_for_its_catalog() {
    let (tiles, lookup) = catalog();
    let described = source(2, 1, vec![vec![vec![3, 1]]], vec![object_at(2, 0, 24, 90)]);
    let mut map = TileMap::load(&described, &tiles, &lookup).unwrap();
    assert!(map.valid_for(tiles.len()));
    assert!(map.valid_for(3));
    assert!(!map.valid_for(2));
    assert!(!map.valid_for(0));
    let mut turned = map.object(0).unwrap().object;
    turned.rotate(-3);
    assert!(map.set_object(0, turned));
    assert!(map.valid_for(3));
    let empty = TileMap::load(&source(0, 0, vec![], vec![]), &tiles, &lookup).unwrap();
    assert!(empty.valid_for(0));
}

#[test]
fn shapes_meet_only_across_groups() {
    assert!(groups_meet(Group::Ground, Group::Moving));
    assert!(groups_meet(Group::Moving, Group::Ground));
    assert!(!groups_meet(Group::Ground, Group::Ground));
    assert!(!groups_meet(Group::Moving, Group::Moving));
    assert_eq!(Collider::Wall { x: 0, y: 0, normal_x: 1, normal_y: 0 }.group(), Group::Ground);
    assert_eq!(Collider::Tile { x: 0, y: 0, tile: 0 }.group(), Group::Ground);
    assert_eq!(Collider::Object { x: 0, y: 0, tile: 0, object: 0 }.group(), Group::Moving);
}
