//! Decoded images and the palettes read from them.
//!
//! A color is four channels packed into a `u32`, red in the top byte and alpha
//! in the lowest. A palette image holds one palette per row; a row maps each
//! of its colors to the column it stands in.

use vstd::prelude::*;
use std::collections::HashMap;
use crate::arith::{lemma_cell_in_grid, lemma_product_fits};

verus! {

broadcast use vstd::std_specs::hash::group_hash_axioms;

/// The most colors that one palette row can define: its lookup texture has
/// 64 entries, and one of them is kept for the transparent color.
pub const ROW_COLORS: usize = 63;

/// The alpha channel of a fully opaque color.
pub const OPAQUE: u32 = 0xff;

/// The red channel of a packed color.
pub open spec fn spec_red(color: u32) -> int {
    color as int / 0x100_0000
}

/// The green channel of a packed color.
pub open spec fn spec_green(color: u32) -> int {
    (color as int / 0x1_0000) % 0x100
}

/// The blue channel of a packed color.
pub open spec fn spec_blue(color: u32) -> int {
    (color as int / 0x100) % 0x100
}

/// The alpha channel of a packed color.
pub open spec fn spec_alpha(color: u32) -> int {
    color as int % 0x100
}

/// The color with the given channels.
pub open spec fn spec_pack(red: u8, green: u8, blue: u8, alpha: u8) -> int {
    red as int * 0x100_0000 + green as int * 0x1_0000 + blue as int * 0x100 + alpha as int
}

/// Packs four channels into a color.
pub fn pack(red: u8, green: u8, blue: u8, alpha: u8) -> (r: u32)
    ensures
        r == spec_pack(red, green, blue, alpha),
        spec_red(r) == red,
        spec_green(r) == green,
        spec_blue(r) == blue,
        spec_alpha(r) == alpha,
{
    let color: u32 = red as u32 * 0x100_0000 + green as u32 * 0x1_0000 + blue as u32 * 0x100
        + alpha as u32;
    assert(color / 0x100_0000 == red as u32 && (color / 0x1_0000) % 0x100 == green as u32 && (color
        / 0x100) % 0x100 == blue as u32 && color % 0x100 == alpha as u32) by (bit_vector)
        requires
            color == red as u32 * 0x100_0000 + green as u32 * 0x1_0000 + blue as u32 * 0x100
                + alpha as u32,
    ;
    color
}

/// The four channels of a color: red, green, blue, alpha.
pub fn channels(color: u32) -> (r: [u8; 4])
    ensures
        r[0] == spec_red(color),
        r[1] == spec_green(color),
        r[2] == spec_blue(color),
        r[3] == spec_alpha(color),
        spec_pack(r[0], r[1], r[2], r[3]) == color,
{
    let red: u8 = (color / 0x100_0000) as u8;
    let green: u8 = ((color / 0x1_0000) % 0x100) as u8;
    let blue: u8 = ((color / 0x100) % 0x100) as u8;
    let alpha: u8 = (color % 0x100) as u8;
    assert(red as u32 * 0x100_0000 + green as u32 * 0x1_0000 + blue as u32 * 0x100 + alpha as u32
        == color) by (bit_vector)
        requires
            red as u32 == color / 0x100_0000,
            green as u32 == (color / 0x1_0000) % 0x100,
            blue as u32 == (color / 0x100) % 0x100,
            alpha as u32 == color % 0x100,
    ;
    [red, green, blue, alpha]
}

/// Whether a color is fully opaque.
pub fn is_opaque(color: u32) -> (r: bool)
    ensures
        r == (spec_alpha(color) == 0xff),
{
    color % 0x100 == OPAQUE
}

/// A decoded image: `width * height` packed colors, row by row from the top.
#[derive(Debug)]
pub struct RgbaImage {
    width: u32,
    height: u32,
    pixels: Vec<u32>,
}

impl RgbaImage {
    /// An image holds one color for each of its pixels.
    #[verifier::type_invariant]
    pub open spec fn valid(self) -> bool {
        self.spec_pixels().len() == self.spec_width() * self.spec_height()
    }

    /// The number of pixels in a row.
    pub closed spec fn spec_width(self) -> int {
        self.width as int
    }

    /// The number of rows.
    pub closed spec fn spec_height(self) -> int {
        self.height as int
    }

    /// The colors, row by row from the top.
    pub closed spec fn spec_pixels(self) -> Seq<u32> {
        self.pixels@
    }

    /// The color at column `x` of row `y`.
    pub open spec fn spec_pixel(self, x: int, y: int) -> u32 {
        self.spec_pixels()[y * self.spec_width() + x]
    }

    /// The image of the given size over `pixels`; `None` where `pixels` does
    /// not hold exactly one color for each pixel.
    pub fn new(width: u32, height: u32, pixels: Vec<u32>) -> (r: Option<RgbaImage>)
        ensures
            r is Some <==> pixels.len() == width * height,
            r matches Some(image) ==> image.spec_width() == width && image.spec_height() == height
                && image.spec_pixels() == pixels@,
    {
        proof {
            lemma_product_fits(width as int, height as int);
        }
        let wanted: u64 = width as u64 * height as u64;
        if pixels.len() as u64 == wanted {
            Some(RgbaImage { width, height, pixels })
        } else {
            None
        }
    }

    /// The number of pixels in a row.
    pub fn width(&self) -> (r: u32)
        ensures
            r == self.spec_width(),
    {
        self.width
    }

    /// The number of rows.
    pub fn height(&self) -> (r: u32)
        ensures
            r == self.spec_height(),
    {
        self.height
    }

    /// The color at column `x` of row `y`; `None` outside the image.
    pub fn pixel(&self, x: u32, y: u32) -> (r: Option<u32>)
        ensures
            r is Some <==> x < self.spec_width() && y < self.spec_height(),
            r matches Some(color) ==> color == self.spec_pixel(x as int, y as int),
    {
        proof {
            use_type_invariant(self);
        }
        let count: usize = self.pixels.len();
        if x < self.width && y < self.height {
            proof {
                lemma_cell_in_grid(x as int, y as int, self.width as int, self.height as int);
                assert(y * self.width + x < count);
            }
            let at: usize = y as usize * self.width as usize + x as usize;
            Some(self.pixels[at])
        } else {
            None
        }
    }
}

/// The lookup that a row of colors defines: each color goes to the column it
/// stands in, and a color that stands in several goes to the last of them.
pub open spec fn spec_lookup(colors: Seq<u32>) -> Map<u32, usize>
    decreases colors.len(),
{
    if colors.len() == 0 {
        Map::empty()
    } else {
        spec_lookup(colors.drop_last()).insert(colors.last(), (colors.len() - 1) as usize)
    }
}

/// The last column of `colors` that holds exactly `color`, if one does.
pub open spec fn spec_index_of(colors: Seq<u32>, color: u32) -> Option<int>
    decreases colors.len(),
{
    if colors.len() == 0 {
        None
    } else if colors.last() == color {
        Some(colors.len() - 1)
    } else {
        spec_index_of(colors.drop_last(), color)
    }
}

/// The byte `at` of a row's lookup texture: the channels of its colors, four
/// bytes each, and fully transparent entries after them.
pub open spec fn spec_texel(colors: Seq<u32>, at: int) -> int {
    if 0 <= at / 4 < colors.len() {
        let color = colors[at / 4];
        if at % 4 == 0 {
            spec_red(color)
        } else if at % 4 == 1 {
            spec_green(color)
        } else if at % 4 == 2 {
            spec_blue(color)
        } else {
            spec_alpha(color)
        }
    } else {
        0
    }
}

/// What the index of a color says: it is a column of the row, that column
/// holds the color, and no later column does. A color has no index exactly
/// when no column holds it.
pub proof fn lemma_index_of(colors: Seq<u32>, color: u32)
    ensures
        spec_index_of(colors, color) matches Some(k) ==> 0 <= k < colors.len() && colors[k] == color
            && forall|j: int| k < j < colors.len() ==> colors[j] != color,
        spec_index_of(colors, color) is None <==> !colors.contains(color),
    decreases colors.len(),
{
    if colors.len() > 0 {
        let rest = colors.drop_last();
        lemma_index_of(rest, color);
        if colors.last() == color {
            assert(colors[colors.len() - 1] == color);
        } else {
            if rest.contains(color) {
                let i = choose|i: int| 0 <= i < rest.len() && rest[i] == color;
                assert(colors[i] == color);
            }
            if colors.contains(color) {
                let i = choose|i: int| 0 <= i < colors.len() && colors[i] == color;
                assert(rest[i] == color);
            }
            assert forall|j: int|
                spec_index_of(colors, color) matches Some(k) && k < j < colors.len() implies colors[j]
                != color by {
                if j < rest.len() {
                    assert(rest[j] == colors[j]);
                }
            }
        }
    }
}

/// The lookup of a row holds a color exactly when the color has an index, and
/// then holds that index.
pub proof fn lemma_lookup_is_index(colors: Seq<u32>, color: u32)
    requires
        colors.len() <= usize::MAX,
    ensures
        spec_lookup(colors).contains_key(color) <==> spec_index_of(colors, color) is Some,
        spec_index_of(colors, color) matches Some(k) ==> spec_lookup(colors)[color] == k,
    decreases colors.len(),
{
    if colors.len() > 0 {
        lemma_lookup_is_index(colors.drop_last(), color);
    }
}

/// One palette: the colors of one row of a palette image.
#[derive(Debug)]
pub struct PaletteRow {
    colors: Vec<u32>,
    lookup: HashMap<u32, usize>,
}

impl PaletteRow {
    /// A row defines at most [`ROW_COLORS`] colors, and its lookup is the one
    /// that they define.
    #[verifier::type_invariant]
    pub open spec fn valid(self) -> bool {
        &&& self.spec_colors().len() <= ROW_COLORS
        &&& self.spec_table() == spec_lookup(self.spec_colors())
    }

    /// The colors of the row, by column.
    pub closed spec fn spec_colors(self) -> Seq<u32> {
        self.colors@
    }

    /// The lookup from color to column that the row holds.
    pub closed spec fn spec_table(self) -> Map<u32, usize> {
        self.lookup@
    }

    /// The index that stands for "transparent" in this row: the entry that
    /// follows the last defined color.
    pub open spec fn spec_sentinel(self) -> int {
        self.spec_colors().len() as int
    }

    /// The row that holds `colors`; `None` where they are more than
    /// [`ROW_COLORS`].
    pub fn new(colors: Vec<u32>) -> (r: Option<PaletteRow>)
        ensures
            r is Some <==> colors.len() <= ROW_COLORS,
            r matches Some(row) ==> row.spec_colors() == colors@,
    {
        if colors.len() > ROW_COLORS {
            return None;
        }
        let mut lookup: HashMap<u32, usize> = HashMap::new();
        let mut x: usize = 0;
        while x < colors.len()
            invariant
                x <= colors.len(),
                lookup@ == spec_lookup(colors@.take(x as int)),
            decreases colors.len() - x,
        {
            proof {
                assert(colors@.take(x + 1).drop_last() =~= colors@.take(x as int));
            }
            lookup.insert(colors[x], x);
            x = x + 1;
        }
        proof {
            assert(colors@.take(x as int) =~= colors@);
        }
        Some(PaletteRow { colors, lookup })
    }

    /// The number of colors that the row defines.
    pub fn len(&self) -> (r: usize)
        ensures
            r == self.spec_colors().len(),
            r <= ROW_COLORS,
    {
        proof {
            use_type_invariant(self);
        }
        self.colors.len()
    }

    /// The index that stands for "transparent" in this row.
    pub fn sentinel(&self) -> (r: u8)
        ensures
            r == self.spec_sentinel(),
    {
        proof {
            use_type_invariant(self);
        }
        self.colors.len() as u8
    }

    /// The index of `color` in this row: the last column that holds exactly
    /// this color, and `None` where no column does.
    pub fn index_of(&self, color: u32) -> (r: Option<u8>)
        ensures
            r matches Some(k) ==> spec_index_of(self.spec_colors(), color) == Some(k as int),
            r is None ==> spec_index_of(self.spec_colors(), color) is None,
    {
        proof {
            use_type_invariant(self);
            lemma_lookup_is_index(self.colors@, color);
            lemma_index_of(self.colors@, color);
        }
        match self.lookup.get(&color) {
            Some(column) => Some(*column as u8),
            None => None,
        }
    }

    /// The bytes of the row's lookup texture: four channels for each color,
    /// then one fully transparent entry.
    pub fn texels(&self) -> (r: Vec<u8>)
        ensures
            r.len() == 4 * (self.spec_colors().len() + 1),
            forall|at: int| 0 <= at < r.len() ==> #[trigger] r[at] == spec_texel(self.spec_colors(), at),
    {
        proof {
            use_type_invariant(self);
        }
        let mut bytes: Vec<u8> = Vec::new();
        let mut x: usize = 0;
        while x < self.colors.len()
            invariant
                x <= self.colors.len(),
                bytes.len() == 4 * x,
                forall|at: int| 0 <= at < bytes.len() ==> #[trigger] bytes[at] == spec_texel(self.colors@, at),
            decreases self.colors.len() - x,
        {
            let parts = channels(self.colors[x]);
            bytes.push(parts[0]);
            bytes.push(parts[1]);
            bytes.push(parts[2]);
            bytes.push(parts[3]);
            x = x + 1;
        }
        bytes.push(0);
        bytes.push(0);
        bytes.push(0);
        bytes.push(0);
        bytes
    }
}

/// Why a palette image was refused.
#[derive(Clone, Copy, Debug, PartialEq, Eq, Structural)]
pub enum PaletteError {
    /// A row of the image holds more than [`ROW_COLORS`] colors.
    TooWide,
}

/// The palettes of one palette image, one for each of its rows.
#[derive(Debug)]
pub struct Palettes {
    rows: Vec<PaletteRow>,
}

impl Palettes {
    /// Every row is a valid palette.
    #[verifier::type_invariant]
    pub open spec fn valid(self) -> bool {
        forall|y: int| 0 <= y < self.spec_rows().len() ==> (#[trigger] self.spec_rows()[y]).valid()
    }

    /// The palettes, from the top row down.
    pub closed spec fn spec_rows(self) -> Seq<PaletteRow> {
        self.rows@
    }

    /// Whether `image` is refused as a palette image: its rows are wider than
    /// [`ROW_COLORS`].
    pub open spec fn spec_refused(image: RgbaImage) -> bool {
        image.spec_width() > ROW_COLORS
    }

    /// Whether these are the palettes of `image`: one for each row, holding
    /// the colors of the row by column.
    pub open spec fn spec_read_from(self, image: RgbaImage) -> bool {
        &&& self.spec_rows().len() == image.spec_height()
        &&& forall|y: int|
            0 <= y < image.spec_height() ==> (#[trigger] self.spec_rows()[y]).spec_colors()
                == image.spec_pixels().subrange(y * image.spec_width(), (y + 1) * image.spec_width())
        &&& forall|y: int| 0 <= y < image.spec_height() ==> (#[trigger] self.spec_rows()[y]).valid()
    }

    /// Reads the palettes of a palette image: row `y` of the image becomes
    /// palette `y`, with the colors of the row by column. An image whose rows
    /// are wider than [`ROW_COLORS`] is refused.
    pub fn load(image: &RgbaImage) -> (r: Result<Palettes, PaletteError>)
        ensures
            r is Err <==> Palettes::spec_refused(*image),
            r matches Err(e) ==> e == PaletteError::TooWide,
            r matches Ok(palettes) ==> palettes.spec_read_from(*image),
    {
        proof {
            use_type_invariant(image);
        }
        let width: usize = image.width as usize;
        if width > ROW_COLORS {
            return Err(PaletteError::TooWide);
        }
        let height: usize = image.height as usize;
        let count: usize = image.pixels.len();
        let mut rows: Vec<PaletteRow> = Vec::new();
        let mut y: usize = 0;
        while y < height
            invariant
                y <= height,
                width == image.width,
                height == image.height,
                width <= ROW_COLORS,
                image.pixels@.len() == width * height,
                image.pixels@.len() == count,
                rows.len() == y,
                forall|k: int| 0 <= k < y ==> (#[trigger] rows[k]).valid(),
                forall|k: int|
                    0 <= k < y ==> (#[trigger] rows[k]).spec_colors() == image.pixels@.subrange(
                        k * width,
                        (k + 1) * width,
                    ),
            decreases height - y,
        {
            proof {
                assert(0 <= y * width && (y + 1) * width <= height * width) by (nonlinear_arith)
                    requires
                        0 <= y < height,
                        0 <= width,
                ;
                assert(height * width == width * height) by (nonlinear_arith);
                assert((y + 1) * width == y * width + width) by (nonlinear_arith);
            }
            let start: usize = y * width;
            let mut colors: Vec<u32> = Vec::new();
            let mut x: usize = 0;
            while x < width
                invariant
                    x <= width,
                    start == y * width,
                    start + width <= image.pixels@.len(),
                    image.pixels@.len() == count,
                    colors@ == image.pixels@.subrange(start as int, start + x),
                decreases width - x,
            {
                colors.push(image.pixels[start + x]);
                proof {
                    assert(colors@ =~= image.pixels@.subrange(start as int, start + x + 1));
                }
                x = x + 1;
            }
            let row = PaletteRow::new(colors);
            match row {
                Some(row) => {
                    proof {
                        use_type_invariant(&row);
                    }
                    rows.push(row);
                },
                None => {
                    proof {
                        assert(false);
                    }
                },
            }
            y = y + 1;
        }
        Ok(Palettes { rows })
    }

    /// The number of palettes.
    pub fn len(&self) -> (r: usize)
        ensures
            r == self.spec_rows().len(),
    {
        self.rows.len()
    }

    /// Palette `index`; `None` where the image has no such row.
    pub fn get(&self, index: usize) -> (r: Option<&PaletteRow>)
        ensures
            r is Some <==> index < self.spec_rows().len(),
            r matches Some(row) ==> *row == self.spec_rows()[index as int] && row.valid(),
    {
        proof {
            use_type_invariant(self);
        }
        if index < self.rows.len() {
            Some(&self.rows[index])
        } else {
            None
        }
    }
}

} // verus!
