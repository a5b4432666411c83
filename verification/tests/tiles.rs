use std::collections::HashMap;
use tilemap_core::animation::frame_index;
use tilemap_core::text::{join_path, same_text};
use tilemap_core::tiles::{
    file_name, find_property, palette_row, row_of_parsed, Frame, FrameSource, ImageSource,
    NamedProperty, Property, TileAssets, TileSource, Tiles, TilesError, Tileset,
};

fn text(name: &str, value: &str) -> NamedProperty {
    NamedProperty { name: name.to_string(), value: Property::Text(value.to_string()) }
}

fn named(name: &str, value: Property) -> NamedProperty {
    NamedProperty { name: name.to_string(), value }
}

fn tile(id: u32, source: &str) -> TileSource {
    TileSource {
        id,
        image: Some(ImageSource { source: source.to_string(), width: 16, height: 32 }),
        properties: vec![],
        animation: None,
    }
}

fn tileset(name: &str, first_gid: u32, tiles: Vec<TileSource>) -> Tileset {
    Tileset { name: name.to_string(), first_gid, properties: vec![text("palette", "main.png")], tiles }
}

fn assets(count: usize) -> Vec<TileAssets> {
    (0..count).map(|i| TileAssets { texture: 100 + i, script: None }).collect()
}

#[test]
fn text_helpers() {
    assert!(same_text("abc", "abc"));
    assert!(!same_text("abc", "abd"));
    assert!(!same_text("abc", "ab"));
    assert!(same_text("", ""));
    assert_eq!(join_path("assets/tiled/", "a/b.lua"), "assets/tiled/a/b.lua");
    assert_eq!(join_path("", ""), "");
}

#[test]
fn first_property_of_a_name_is_found() {
    let properties = vec![text("a", "1"), text("b", "2"), text("a", "3")];
    assert!(matches!(find_property(&properties, "a"), Some(Property::Text(v)) if v == "1"));
    assert!(matches!(find_property(&properties, "b"), Some(Property::Text(v)) if v == "2"));
    assert!(find_property(&properties, "c").is_none());
    assert!(find_property(&vec![], "a").is_none());
}

#[test]
fn only_text_and_file_properties_name_a_file() {
    assert_eq!(file_name(Some(&Property::Text("a.png".to_string()))), Some(&"a.png".to_string()));
    assert_eq!(file_name(Some(&Property::File("b.png".to_string()))), Some(&"b.png".to_string()));
    assert_eq!(file_name(Some(&Property::Int(3))), None);
    assert_eq!(file_name(Some(&Property::Bool(true))), None);
    assert_eq!(file_name(None), None);
}

#[test]
fn palette_row_reads_numbers_and_text() {
    assert_eq!(palette_row(Some(&Property::Int(3))), 3);
    assert_eq!(palette_row(Some(&Property::Color(7))), 7);
    assert_eq!(palette_row(Some(&Property::Float(2))), 2);
    assert_eq!(palette_row(Some(&Property::Text("12".to_string()))), 12);
    assert_eq!(palette_row(Some(&Property::Text("+4".to_string()))), 4);
    assert_eq!(palette_row(Some(&Property::Text("abc".to_string()))), 0);
    assert_eq!(palette_row(Some(&Property::Text("".to_string()))), 0);
    assert_eq!(palette_row(Some(&Property::Text("-1".to_string()))), 0);
    assert_eq!(palette_row(Some(&Property::File("5".to_string()))), 0);
    assert_eq!(palette_row(Some(&Property::Bool(true))), 0);
    assert_eq!(palette_row(None), 0);
    assert_eq!(palette_row(Some(&Property::Int(-1))), usize::MAX);
}

#[test]
fn parsed_row_defaults_to_zero() {
    assert_eq!(row_of_parsed(None), 0);
    assert_eq!(row_of_parsed(Some(0)), 0);
    assert_eq!(row_of_parsed(Some(41)), 41);
}

#[test]
fn plan_asks_for_each_tile() {
    let catalog = Tiles::new();
    let mut second = tile(1, "b.png");
    second.properties = vec![
        text("palette", "other.png"),
        named("palette_id", Property::Int(2)),
        named("script", Property::File("walker.lua".to_string())),
    ];
    let set = tileset("ground", 1, vec![tile(0, "a.png"), second]);
    let requests = catalog.plan(&set).unwrap();
    assert_eq!(requests.len(), 2);
    assert_eq!(requests[0].texture_name, "a.png");
    assert_eq!(requests[0].image_path, "assets/images/a.png");
    assert_eq!(requests[0].palette_path, "assets/tiled/main.png");
    assert_eq!(requests[0].palette_id, 0);
    assert_eq!(requests[0].script_path, None);
    assert_eq!(requests[1].texture_name, "b.png");
    assert_eq!(requests[1].image_path, "assets/images/b.png");
    assert_eq!(requests[1].palette_path, "assets/tiled/other.png");
    assert_eq!(requests[1].palette_id, 2);
    assert_eq!(requests[1].script_path, Some("assets/tiled/walker.lua".to_string()));
}

#[test]
fn tile_palette_of_the_wrong_kind_falls_back() {
    let catalog = Tiles::new();
    let mut only = tile(0, "a.png");
    only.properties = vec![named("palette", Property::Int(3)), named("script", Property::Bool(true))];
    let requests = catalog.plan(&tileset("ground", 1, vec![only])).unwrap();
    assert_eq!(requests[0].palette_path, "assets/tiled/main.png");
    assert_eq!(requests[0].script_path, None);
}

#[test]
fn new_tileset_has_to_name_its_palette() {
    let mut catalog = Tiles::new();
    let mut bare = tileset("ground", 1, vec![tile(0, "a.png")]);
    assert!(catalog.admits(&bare));
    bare.properties = vec![];
    assert!(!catalog.admits(&bare));
    bare.properties = vec![named("palette", Property::Int(1))];
    assert!(!catalog.admits(&bare));
    bare.properties = vec![named("palette", Property::File("main.png".to_string()))];
    assert!(catalog.admits(&bare));

    let mut lookup = HashMap::new();
    catalog.load(&bare, &assets(1), &mut lookup).unwrap();
    bare.properties = vec![];
    assert!(catalog.admits(&bare));
    assert_eq!(catalog.len(), 1);
}

#[test]
fn plan_refuses_a_tileset_without_image() {
    let catalog = Tiles::new();
    let mut blank = tile(1, "b.png");
    blank.image = None;
    let set = tileset("ground", 1, vec![tile(0, "a.png"), blank]);
    assert_eq!(catalog.plan(&set).err(), Some(TilesError::MissingImage));
}

#[test]
fn load_appends_tiles_and_fills_the_lookup() {
    let mut catalog = Tiles::new();
    let mut lookup = HashMap::new();
    let set = tileset("ground", 10, vec![tile(0, "a.png"), tile(3, "b.png")]);
    assert_eq!(catalog.load(&set, &assets(2), &mut lookup), Ok(()));
    assert_eq!(catalog.len(), 2);
    assert!(catalog.is_loaded("ground"));
    assert!(!catalog.is_loaded("sky"));
    assert_eq!(lookup.len(), 2);
    assert_eq!(lookup[&10], 0);
    assert_eq!(lookup[&13], 1);
    let first = catalog.get(0).unwrap();
    assert_eq!((first.texture, first.width, first.height), (100, 16, 32));
    assert!(first.animation.is_empty());
    assert_eq!(first.script, None);
    assert_eq!(catalog.get(1).unwrap().texture, 101);
    assert!(catalog.get(2).is_none());

    let more = tileset("sky", 20, vec![tile(0, "c.png")]);
    assert_eq!(catalog.load(&more, &assets(1), &mut lookup), Ok(()));
    assert_eq!(catalog.len(), 3);
    assert_eq!(lookup[&20], 2);
    assert_eq!(lookup[&10], 0);
}

#[test]
fn same_tileset_name_is_not_loaded_twice() {
    let mut catalog = Tiles::new();
    let mut lookup = HashMap::new();
    let other = tileset("other", 1, vec![tile(0, "x.png")]);
    catalog.load(&other, &assets(1), &mut lookup).unwrap();
    let set = tileset("ground", 10, vec![tile(0, "a.png"), tile(1, "b.png")]);
    catalog.load(&set, &assets(2), &mut lookup).unwrap();
    assert_eq!(catalog.len(), 3);

    let mut again = tileset("ground", 50, vec![tile(0, "a.png"), tile(1, "b.png")]);
    again.properties = vec![];
    assert_eq!(catalog.plan(&again).map(|requests| requests.len()), Ok(0));
    let mut second = HashMap::new();
    assert_eq!(catalog.load(&again, &vec![], &mut second), Ok(()));
    assert_eq!(catalog.len(), 3);
    assert_eq!(second.len(), 2);
    assert_eq!(second[&50], 1);
    assert_eq!(second[&51], 2);
    assert_eq!(catalog.get(1).unwrap().texture, 100);
}

#[test]
fn later_tile_of_the_same_id_wins_the_lookup() {
    let mut catalog = Tiles::new();
    let mut lookup = HashMap::new();
    lookup.insert(5, 77);
    lookup.insert(9, 78);
    let set = tileset("ground", 5, vec![tile(0, "a.png"), tile(1, "b.png"), tile(0, "c.png")]);
    catalog.load(&set, &assets(3), &mut lookup).unwrap();
    assert_eq!(lookup[&5], 2);
    assert_eq!(lookup[&6], 1);
    assert_eq!(lookup[&9], 78);
}

#[test]
fn animation_frames_may_point_forward() {
    let mut catalog = Tiles::new();
    let mut lookup = HashMap::new();
    catalog.load(&tileset("other", 1, vec![tile(0, "x.png")]), &assets(1), &mut lookup).unwrap();
    let mut animated = tile(0, "a.png");
    animated.animation = Some(vec![
        FrameSource { tile_id: 0, duration: 200 },
        FrameSource { tile_id: 2, duration: 500 },
    ]);
    let set = tileset("ground", 10, vec![animated, tile(1, "b.png"), tile(2, "c.png")]);
    catalog.load(&set, &assets(3), &mut lookup).unwrap();
    assert_eq!(
        catalog.get(1).unwrap().animation,
        vec![Frame { tile: 1, duration: 200 }, Frame { tile: 3, duration: 500 }]
    );
    assert!(catalog.get(2).unwrap().animation.is_empty());
}

#[test]
fn script_is_kept_only_for_tiles_that_name_one() {
    let mut catalog = Tiles::new();
    let mut lookup = HashMap::new();
    let mut scripted = tile(0, "a.png");
    scripted.properties = vec![text("script", "walker.lua")];
    let set = tileset("ground", 1, vec![scripted, tile(1, "b.png")]);
    let given = vec![
        TileAssets { texture: 4, script: Some(9) },
        TileAssets { texture: 5, script: Some(10) },
    ];
    catalog.load(&set, &given, &mut lookup).unwrap();
    assert_eq!(catalog.get(0).unwrap().script, Some(9));
    assert_eq!(catalog.get(1).unwrap().script, None);
}

#[test]
fn refused_tileset_leaves_catalog_and_lookup() {
    let mut catalog = Tiles::new();
    let mut lookup = HashMap::new();
    lookup.insert(1, 0);

    let set = tileset("a", 1, vec![tile(0, "a.png")]);
    assert_eq!(catalog.load(&set, &assets(2), &mut lookup), Err(TilesError::AssetCount));

    let mut blank = tile(0, "a.png");
    blank.image = None;
    assert_eq!(
        catalog.load(&tileset("a", 1, vec![blank]), &assets(1), &mut lookup),
        Err(TilesError::MissingImage)
    );

    let mut scripted = tile(0, "a.png");
    scripted.properties = vec![text("script", "s.lua")];
    assert_eq!(
        catalog.load(&tileset("a", 1, vec![scripted]), &assets(1), &mut lookup),
        Err(TilesError::MissingScript)
    );

    assert_eq!(
        catalog.load(&tileset("a", u32::MAX, vec![tile(1, "a.png")]), &assets(1), &mut lookup),
        Err(TilesError::GidOverflow)
    );

    let mut dangling = tile(0, "a.png");
    dangling.animation = Some(vec![FrameSource { tile_id: 5, duration: 100 }]);
    assert_eq!(
        catalog.load(&tileset("a", 1, vec![dangling]), &assets(1), &mut lookup),
        Err(TilesError::DanglingFrame)
    );

    assert_eq!(catalog.len(), 0);
    assert!(!catalog.is_loaded("a"));
    assert_eq!(lookup.len(), 1);
    assert_eq!(lookup[&1], 0);
}

#[test]
fn reload_with_overflowing_gid_is_refused() {
    let mut catalog = Tiles::new();
    let mut lookup = HashMap::new();
    catalog.load(&tileset("a", 1, vec![tile(0, "a.png")]), &assets(1), &mut lookup).unwrap();
    let mut second = HashMap::new();
    assert_eq!(
        catalog.load(&tileset("a", u32::MAX, vec![tile(1, "a.png")]), &vec![], &mut second),
        Err(TilesError::GidOverflow)
    );
    assert!(second.is_empty());
}

#[test]
fn animation_uses_the_first_frame_duration() {
    assert_eq!(frame_index(350, 200, 2), 1);
    assert_eq!(frame_index(0, 200, 2), 0);
    assert_eq!(frame_index(199, 200, 2), 0);
    assert_eq!(frame_index(200, 200, 2), 1);
    assert_eq!(frame_index(400, 200, 2), 0);
    assert_eq!(frame_index(1000, 200, 3), 2);
    assert_eq!(frame_index(0, 0, 3), 0);
    assert_eq!(frame_index(1, 0, 4), usize::MAX % 4);
    assert_eq!(frame_index(u64::MAX, 1, 1), 0);
}

#[test]
fn shown_tile_follows_the_animation() {
    let mut catalog = Tiles::new();
    let mut lookup = HashMap::new();
    let mut animated = tile(0, "a.png");
    animated.animation = Some(vec![
        FrameSource { tile_id: 0, duration: 200 },
        FrameSource { tile_id: 1, duration: 500 },
    ]);
    let set = tileset("ground", 1, vec![animated, tile(1, "b.png")]);
    catalog.load(&set, &assets(2), &mut lookup).unwrap();
    assert_eq!(catalog.shown(0, 0), Some(0));
    assert_eq!(catalog.shown(0, 350), Some(1));
    assert_eq!(catalog.shown(0, 400), Some(0));
    assert_eq!(catalog.shown(1, 350), Some(1));
    assert_eq!(catalog.shown(2, 350), None);
}
