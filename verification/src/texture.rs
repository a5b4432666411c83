//! Sprites quantized to palette indices, with the four vertex quads that draw
//! them at each quarter turn.
//!
//! Transparency is by color key: a pixel that is not fully opaque, or whose
//! color the palette does not hold exactly, becomes the palette's transparent
//! index.

use vstd::prelude::*;
use crate::arith::lemma_cell_in_grid;
use crate::palette::{
    is_opaque, lemma_index_of, PaletteRow, Palettes, RgbaImage, spec_alpha, spec_index_of,
};

verus! {

/// One corner of a quad: its position in sprite space and the corner of the
/// texture that is drawn there.
#[derive(Clone, Copy, Debug, PartialEq, Eq, Structural)]
pub struct Vertex {
    /// Position in sprite space.
    pub x: u32,
    pub y: u32,
    /// Corner of the texture, each coordinate 0 or 1.
    pub u: u8,
    pub v: u8,
}

/// An opaque pixel whose color the palette does not hold.
#[derive(Clone, Copy, Debug, PartialEq, Eq, Structural)]
pub struct MissingColor {
    pub color: u32,
    pub x: u32,
    pub y: u32,
}

/// Why a sprite was refused.
#[derive(Clone, Copy, Debug, PartialEq, Eq, Structural)]
pub enum TextureError {
    /// The palette image has no row of the number asked for.
    NoSuchRow,
}

/// The texture corner drawn at corner `corner` of the quad for `rotation`:
/// the unrotated quad's corners, taken `rotation` places further round.
pub open spec fn spec_uv(rotation: int, corner: int) -> (u8, u8) {
    let place = (corner + rotation) % 4;
    if place == 0 {
        (1u8, 0u8)
    } else if place == 1 {
        (0u8, 0u8)
    } else if place == 2 {
        (0u8, 1u8)
    } else {
        (1u8, 1u8)
    }
}

/// The position of corner `corner` of a quad that is `across` wide and `down`
/// high.
pub open spec fn spec_corner(across: u32, down: u32, corner: int) -> (u32, u32) {
    if corner == 0 {
        (across, 0u32)
    } else if corner == 1 {
        (0u32, 0u32)
    } else if corner == 2 {
        (0u32, down)
    } else {
        (across, down)
    }
}

/// Corner `corner` of the quad that draws a `width` by `height` sprite turned
/// by `rotation` quarter turns: an odd rotation swaps the quad's width and
/// height.
pub open spec fn spec_vertex(width: u32, height: u32, rotation: int, corner: int) -> Vertex {
    let pos = if rotation % 2 == 0 {
        spec_corner(width, height, corner)
    } else {
        spec_corner(height, width, corner)
    };
    let uv = spec_uv(rotation, corner);
    Vertex { x: pos.0, y: pos.1, u: uv.0, v: uv.1 }
}

/// The quad that draws a `width` by `height` sprite turned by `rotation`
/// quarter turns.
pub fn quad(width: u32, height: u32, rotation: usize) -> (r: [Vertex; 4])
    requires
        rotation < 4,
    ensures
        forall|corner: int| 0 <= corner < 4 ==> #[trigger] r[corner] == spec_vertex(width, height, rotation as int, corner),
{
    if rotation == 0 {
        [
            Vertex { x: width, y: 0, u: 1, v: 0 },
            Vertex { x: 0, y: 0, u: 0, v: 0 },
            Vertex { x: 0, y: height, u: 0, v: 1 },
            Vertex { x: width, y: height, u: 1, v: 1 },
        ]
    } else if rotation == 1 {
        [
            Vertex { x: height, y: 0, u: 0, v: 0 },
            Vertex { x: 0, y: 0, u: 0, v: 1 },
            Vertex { x: 0, y: width, u: 1, v: 1 },
            Vertex { x: height, y: width, u: 1, v: 0 },
        ]
    } else if rotation == 2 {
        [
            Vertex { x: width, y: 0, u: 0, v: 1 },
            Vertex { x: 0, y: 0, u: 1, v: 1 },
            Vertex { x: 0, y: height, u: 1, v: 0 },
            Vertex { x: width, y: height, u: 0, v: 0 },
        ]
    } else {
        [
            Vertex { x: height, y: 0, u: 1, v: 1 },
            Vertex { x: 0, y: 0, u: 1, v: 0 },
            Vertex { x: 0, y: width, u: 0, v: 0 },
            Vertex { x: height, y: width, u: 0, v: 1 },
        ]
    }
}

/// The palette index that a pixel becomes: the index of its color where the
/// pixel is fully opaque and the row holds the color, and the row's
/// transparent index otherwise.
pub open spec fn spec_quantize(colors: Seq<u32>, pixel: u32) -> int {
    if spec_alpha(pixel) == 0xff {
        match spec_index_of(colors, pixel) {
            Some(k) => k,
            None => colors.len() as int,
        }
    } else {
        colors.len() as int
    }
}

/// Whether a pixel is opaque and of a color that the row does not hold.
pub open spec fn spec_is_missing(colors: Seq<u32>, pixel: u32) -> bool {
    spec_alpha(pixel) == 0xff && spec_index_of(colors, pixel) is None
}

/// The records of the missing colors among `pixels`, in pixel order, each
/// with the place of its pixel in rows of `width`.
pub open spec fn spec_missing(colors: Seq<u32>, pixels: Seq<u32>, width: int) -> Seq<MissingColor>
    decreases pixels.len(),
{
    if pixels.len() == 0 {
        Seq::empty()
    } else {
        let before = spec_missing(colors, pixels.drop_last(), width);
        let at = pixels.len() - 1;
        if spec_is_missing(colors, pixels.last()) {
            before.push(
                MissingColor { color: pixels.last(), x: (at % width) as u32, y: (at / width) as u32 },
            )
        } else {
            before
        }
    }
}

/// The palette index that `pixel` becomes under `row`.
pub fn quantize(row: &PaletteRow, pixel: u32) -> (r: u8)
    ensures
        r == spec_quantize(row.spec_colors(), pixel),
        r <= row.spec_sentinel(),
        (r == row.spec_sentinel()) == (spec_alpha(pixel) != 0xff || spec_is_missing(
            row.spec_colors(),
            pixel,
        )),
{
    proof {
        lemma_index_of(row.spec_colors(), pixel);
    }
    if is_opaque(pixel) {
        match row.index_of(pixel) {
            Some(index) => index,
            None => row.sentinel(),
        }
    } else {
        row.sentinel()
    }
}

/// A sprite as the renderer takes it: one palette index for each pixel, and
/// the quad for each of the four rotations.
#[derive(Debug)]
pub struct Texture {
    data: Vec<u8>,
    width: u32,
    height: u32,
    palette: usize,
    quads: [[Vertex; 4]; 4],
}

impl Texture {
    /// A texture holds one index for each pixel, and its quads are those of
    /// its size.
    #[verifier::type_invariant]
    pub open spec fn valid(self) -> bool {
        &&& self.spec_data().len() == self.spec_width() * self.spec_height()
        &&& forall|rotation: int, corner: int|
            0 <= rotation < 4 && 0 <= corner < 4 ==> #[trigger] self.spec_quad(rotation)[corner]
                == spec_vertex(self.spec_width(), self.spec_height(), rotation, corner)
    }

    /// The palette indices, row by row from the top.
    pub closed spec fn spec_data(self) -> Seq<u8> {
        self.data@
    }

    /// The width of the sprite in pixels.
    pub closed spec fn spec_width(self) -> u32 {
        self.width
    }

    /// The height of the sprite in pixels.
    pub closed spec fn spec_height(self) -> u32 {
        self.height
    }

    /// The handle of the palette image that the sprite was quantized with.
    pub closed spec fn spec_palette(self) -> usize {
        self.palette
    }

    /// The quad that draws the sprite turned by `rotation` quarter turns.
    pub closed spec fn spec_quad(self, rotation: int) -> Seq<Vertex> {
        self.quads@[rotation]@
    }

    /// Whether this is the sprite `image` quantized with the palette row
    /// `colors`: of the image's size, with the palette index of each pixel.
    pub open spec fn spec_quantized_from(self, colors: Seq<u32>, image: RgbaImage) -> bool {
        &&& self.spec_width() == image.spec_width()
        &&& self.spec_height() == image.spec_height()
        &&& self.spec_data().len() == image.spec_pixels().len()
        &&& forall|i: int|
            0 <= i < image.spec_pixels().len() ==> #[trigger] self.spec_data()[i] == spec_quantize(
                colors,
                image.spec_pixels()[i],
            )
    }

    /// Quantizes the sprite `image` with row `palette_id` of `palettes`, whose
    /// handle is `palette_index`, and lists the colors that the row lacks.
    /// Fails where `palettes` has no such row.
    pub fn load(
        palettes: &Palettes,
        palette_index: usize,
        image: &RgbaImage,
        palette_id: usize,
    ) -> (r: Result<(Texture, Vec<MissingColor>), TextureError>)
        ensures
            r is Err <==> palette_id >= palettes.spec_rows().len(),
            r matches Err(e) ==> e == TextureError::NoSuchRow,
            r matches Ok((texture, missing)) ==> {
                let colors = palettes.spec_rows()[palette_id as int].spec_colors();
                &&& texture.spec_quantized_from(colors, *image)
                &&& texture.spec_palette() == palette_index
                &&& texture.valid()
                &&& missing@ == spec_missing(colors, image.spec_pixels(), image.spec_width())
            },
    {
        let row = match palettes.get(palette_id) {
            Some(row) => row,
            None => {
                return Err(TextureError::NoSuchRow);
            },
        };
        proof {
            use_type_invariant(image);
        }
        let width: u32 = image.width();
        let height: u32 = image.height();
        let ghost colors = row.spec_colors();
        let ghost pixels = image.spec_pixels();
        let mut data: Vec<u8> = Vec::new();
        let mut missing: Vec<MissingColor> = Vec::new();
        let mut y: u32 = 0;
        while y < height
            invariant
                y <= height,
                width == image.spec_width(),
                height == image.spec_height(),
                colors == row.spec_colors(),
                pixels == image.spec_pixels(),
                pixels.len() == width * height,
                data.len() == y * width,
                forall|i: int| 0 <= i < data.len() ==> #[trigger] data[i] == spec_quantize(colors, pixels[i]),
                missing@ == spec_missing(colors, pixels.take(y * width), width as int),
            decreases height - y,
        {
            let mut x: u32 = 0;
            while x < width
                invariant
                    x <= width,
                    y < height,
                    width == image.spec_width(),
                    height == image.spec_height(),
                    colors == row.spec_colors(),
                    pixels == image.spec_pixels(),
                    pixels.len() == width * height,
                    data.len() == y * width + x,
                    forall|i: int| 0 <= i < data.len() ==> #[trigger] data[i] == spec_quantize(colors, pixels[i]),
                    missing@ == spec_missing(colors, pixels.take(y * width + x), width as int),
                decreases width - x,
            {
                proof {
                    lemma_cell_in_grid(x as int, y as int, width as int, height as int);
                }
                let ghost at = y * width + x;
                let pixel = match image.pixel(x, y) {
                    Some(pixel) => pixel,
                    None => 0,
                };
                let index = quantize(row, pixel);
                if index == row.sentinel() && is_opaque(pixel) {
                    missing.push(MissingColor { color: pixel, x, y });
                }
                data.push(index);
                proof {
                    assert(pixels.take(at + 1).drop_last() =~= pixels.take(at));
                    assert(pixels.take(at + 1).last() == pixel);
                }
                x = x + 1;
            }
            proof {
                assert((y + 1) * width == y * width + width) by (nonlinear_arith);
            }
            y = y + 1;
        }
        proof {
            assert(y * width == width * height) by (nonlinear_arith)
                requires
                    y == height,
            ;
            assert(pixels.take(y * width) =~= pixels);
        }
        let upright = quad(width, height, 0);
        let quarter = quad(width, height, 1);
        let half = quad(width, height, 2);
        let three_quarters = quad(width, height, 3);
        let quads = [upright, quarter, half, three_quarters];
        let texture = Texture { data, width, height, palette: palette_index, quads };
        proof {
            assert(quads@[0] == upright && quads@[1] == quarter && quads@[2] == half && quads@[3]
                == three_quarters);
            assert forall|rotation: int, corner: int|
                0 <= rotation < 4 && 0 <= corner < 4 implies #[trigger] texture.spec_quad(
                rotation,
            )[corner] == spec_vertex(width, height, rotation, corner) by {
                assert(texture.spec_quad(rotation) == quads@[rotation]@);
            }
        }
        Ok((texture, missing))
    }

    /// The palette indices, row by row from the top.
    pub fn data(&self) -> (r: &Vec<u8>)
        ensures
            r@ == self.spec_data(),
            r.len() == self.spec_width() * self.spec_height(),
    {
        proof {
            use_type_invariant(self);
        }
        &self.data
    }

    /// The width of the sprite in pixels.
    pub fn width(&self) -> (r: u32)
        ensures
            r == self.spec_width(),
    {
        self.width
    }

    /// The height of the sprite in pixels.
    pub fn height(&self) -> (r: u32)
        ensures
            r == self.spec_height(),
    {
        self.height
    }

    /// The handle of the palette image that the sprite was quantized with.
    pub fn palette(&self) -> (r: usize)
        ensures
            r == self.spec_palette(),
    {
        self.palette
    }

    /// The quad that draws the sprite turned by `rotation` quarter turns;
    /// `None` where `rotation` is not in `0..4`.
    pub fn vertices(&self, rotation: usize) -> (r: Option<[Vertex; 4]>)
        ensures
            r is Some <==> rotation < 4,
            r matches Some(quad) ==> forall|corner: int|
                0 <= corner < 4 ==> #[trigger] quad[corner] == spec_vertex(
                    self.spec_width(),
                    self.spec_height(),
                    rotation as int,
                    corner,
                ),
    {
        proof {
            use_type_invariant(self);
        }
        if rotation < 4 {
            let quad = self.quads[rotation];
            proof {
                assert forall|corner: int| 0 <= corner < 4 implies #[trigger] quad[corner]
                    == spec_vertex(self.spec_width(), self.spec_height(), rotation as int, corner) by {
                    assert(self.spec_quad(rotation as int)[corner] == quad[corner]);
                }
            }
            Some(quad)
        } else {
            None
        }
    }
}

/// Turning the sprite by a quarter turn more moves each texture corner one
/// place round the quad, and swaps the quad's width and height.
pub proof fn lemma_quad_turns(width: u32, height: u32, rotation: int, corner: int)
    requires
        0 <= rotation < 3,
        0 <= corner < 4,
    ensures
        spec_vertex(width, height, rotation + 1, corner).u == spec_vertex(
            width,
            height,
            rotation,
            (corner + 1) % 4,
        ).u,
        spec_vertex(width, height, rotation + 1, corner).v == spec_vertex(
            width,
            height,
            rotation,
            (corner + 1) % 4,
        ).v,
        spec_vertex(width, height, rotation + 1, corner).x == spec_vertex(height, width, rotation, corner).x,
        spec_vertex(width, height, rotation + 1, corner).y == spec_vertex(height, width, rotation, corner).y,
{
}

/// Every index of a quantized sprite is an index of the palette row or the
/// row's transparent index, and it is the transparent index exactly for the
/// pixels that are not opaque or whose color the row lacks.
pub proof fn lemma_quantize_in_range(colors: Seq<u32>, pixel: u32)
    ensures
        0 <= spec_quantize(colors, pixel) <= colors.len(),
        spec_quantize(colors, pixel) == colors.len() <==> spec_alpha(pixel) != 0xff || spec_is_missing(
            colors,
            pixel,
        ),
        spec_quantize(colors, pixel) < colors.len() ==> colors[spec_quantize(colors, pixel)] == pixel,
{
    lemma_index_of(colors, pixel);
}

} // verus!
