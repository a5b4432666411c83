use tilemap_core::graphics::{Graphics, GraphicsError};
use tilemap_core::names::NameTable;
use tilemap_core::palette::{PaletteError, RgbaImage};

const RED: u32 = 0xff00_00ff;
const GREEN: u32 = 0x00ff_00ff;

fn palette_image() -> RgbaImage {
    RgbaImage::new(2, 2, vec![RED, GREEN, GREEN, RED]).unwrap()
}

fn sprite(pixels: Vec<u32>) -> RgbaImage {
    RgbaImage::new(pixels.len() as u32, 1, pixels).unwrap()
}

#[test]
fn name_table_gives_each_name_one_index() {
    let mut table = NameTable::new();
    assert_eq!(table.len(), 0);
    assert_eq!(table.find("a"), None);
    assert_eq!(table.intern("a"), (0, true));
    assert_eq!(table.intern("b"), (1, true));
    assert_eq!(table.intern("a"), (0, false));
    assert_eq!(table.intern("c"), (2, true));
    assert_eq!(table.intern("b"), (1, false));
    assert_eq!(table.len(), 3);
    assert_eq!(table.find("a"), Some(0));
    assert_eq!(table.find("b"), Some(1));
    assert_eq!(table.find("c"), Some(2));
    assert_eq!(table.find("d"), None);
    assert_eq!(table.find(""), None);
}

#[test]
fn palette_is_loaded_once_per_name() {
    let mut graphics = Graphics::new();
    assert_eq!(graphics.palette_handle("p.png"), None);
    assert_eq!(graphics.load_palette("p.png", &palette_image()), Ok(0));
    assert_eq!(graphics.load_palette("q.png", &palette_image()), Ok(1));
    let other = RgbaImage::new(1, 1, vec![0]).unwrap();
    assert_eq!(graphics.load_palette("p.png", &other), Ok(0));
    assert_eq!(graphics.palette_count(), 2);
    assert_eq!(graphics.palette_handle("p.png"), Some(0));
    assert_eq!(graphics.palette_handle("q.png"), Some(1));
    assert_eq!(graphics.get_palette(0).unwrap().len(), 2);
    assert!(graphics.get_palette(2).is_none());
}

#[test]
fn refused_palette_leaves_the_registry() {
    let mut graphics = Graphics::new();
    let wide = RgbaImage::new(64, 1, (0..64).collect()).unwrap();
    assert_eq!(graphics.load_palette("wide.png", &wide), Err(PaletteError::TooWide));
    assert_eq!(graphics.palette_count(), 0);
    assert_eq!(graphics.palette_handle("wide.png"), None);
    assert_eq!(graphics.load_palette("wide.png", &palette_image()), Ok(0));
}

#[test]
fn texture_load_is_idempotent_by_name() {
    let mut graphics = Graphics::new();
    let palette = graphics.load_palette("p.png", &palette_image()).unwrap();
    let first = graphics.load_texture("hero.png", palette, 0, &sprite(vec![RED, GREEN])).unwrap();
    assert_eq!(first.handle, 0);
    assert!(first.fresh);
    assert!(first.missing.is_empty());
    assert_eq!(graphics.texture_count(), 1);

    let again = graphics.load_texture("hero.png", palette, 1, &sprite(vec![GREEN])).unwrap();
    assert_eq!(again.handle, 0);
    assert!(!again.fresh);
    assert!(again.missing.is_empty());
    assert_eq!(graphics.texture_count(), 1);
    assert_eq!(graphics.get_texture(0).unwrap().data(), &vec![0, 1]);

    let bogus = graphics.load_texture("hero.png", 99, 99, &sprite(vec![])).unwrap();
    assert_eq!(bogus.handle, 0);
    assert!(!bogus.fresh);
    assert_eq!(graphics.texture_count(), 1);
}

#[test]
fn textures_get_handles_in_load_order() {
    let mut graphics = Graphics::new();
    let palette = graphics.load_palette("p.png", &palette_image()).unwrap();
    let a = graphics.load_texture("a.png", palette, 0, &sprite(vec![RED])).unwrap();
    let b = graphics.load_texture("b.png", palette, 1, &sprite(vec![RED, 0x0101_01ff])).unwrap();
    assert_eq!((a.handle, b.handle), (0, 1));
    assert_eq!(b.missing.len(), 1);
    assert_eq!(graphics.texture_handle("a.png"), Some(0));
    assert_eq!(graphics.texture_handle("b.png"), Some(1));
    assert_eq!(graphics.texture_handle("c.png"), None);
    assert_eq!(graphics.get_texture(1).unwrap().data(), &vec![1, 2]);
    assert_eq!(graphics.get_texture(1).unwrap().palette(), palette);
    assert!(graphics.get_texture(2).is_none());
}

#[test]
fn new_texture_needs_a_known_palette_and_row() {
    let mut graphics = Graphics::new();
    let palette = graphics.load_palette("p.png", &palette_image()).unwrap();
    assert_eq!(
        graphics.load_texture("a.png", palette + 1, 0, &sprite(vec![RED])).err(),
        Some(GraphicsError::NoSuchPalette)
    );
    assert_eq!(
        graphics.load_texture("a.png", palette, 2, &sprite(vec![RED])).err(),
        Some(GraphicsError::NoSuchRow)
    );
    assert_eq!(graphics.texture_count(), 0);
    assert_eq!(graphics.texture_handle("a.png"), None);
    assert!(graphics.load_texture("a.png", palette, 1, &sprite(vec![RED])).unwrap().fresh);
}

#[test]
fn texture_is_drawn_with_the_first_row_of_its_palette() {
    let mut graphics = Graphics::new();
    let first = graphics.load_palette("p.png", &palette_image()).unwrap();
    let second = graphics.load_palette("q.png", &palette_image()).unwrap();
    let empty = graphics.load_palette("e.png", &RgbaImage::new(0, 0, vec![]).unwrap()).unwrap();
    graphics.load_texture("a.png", second, 1, &sprite(vec![RED])).unwrap();
    graphics.load_texture("b.png", first, 0, &sprite(vec![RED])).unwrap();
    assert_eq!(graphics.draw_palette(0), Some((second, 0)));
    assert_eq!(graphics.draw_palette(1), Some((first, 0)));
    assert_eq!(graphics.draw_palette(2), None);
    assert_eq!(
        graphics.load_texture("c.png", empty, 0, &sprite(vec![RED])).err(),
        Some(GraphicsError::NoSuchRow)
    );
}
