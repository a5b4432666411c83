//! The registry of palettes and textures: each is loaded once under its file
//! name and keeps the handle it was given then.

use vstd::prelude::*;
use crate::names::{spec_intern, NameTable};
use crate::palette::{PaletteError, Palettes, RgbaImage};
use crate::texture::{spec_missing, MissingColor, Texture, TextureError};

verus! {

/// Why a load was refused.
#[derive(Clone, Copy, Debug, PartialEq, Eq, Structural)]
pub enum GraphicsError {
    /// The registry holds no palette under the handle given.
    NoSuchPalette,
    /// The palette has no row of the number asked for.
    NoSuchRow,
}

/// What a texture load gave.
#[derive(Debug)]
pub struct Loaded {
    /// The handle of the texture.
    pub handle: usize,
    /// Whether this load made the texture, so that it has yet to be uploaded.
    pub fresh: bool,
    /// The colors of the sprite that its palette row lacks; empty unless
    /// `fresh`.
    pub missing: Vec<MissingColor>,
}

/// The palettes and textures of a session, by handle.
pub struct Graphics {
    texture_names: NameTable,
    textures: Vec<Texture>,
    palette_names: NameTable,
    palettes: Vec<Palettes>,
}

impl Graphics {
    /// The file names of the textures, by handle.
    pub closed spec fn texture_names(self) -> Seq<Seq<char>> {
        self.texture_names.names()
    }

    /// The textures, by handle.
    pub closed spec fn textures(self) -> Seq<Texture> {
        self.textures@
    }

    /// The file names of the palette images, by handle.
    pub closed spec fn palette_names(self) -> Seq<Seq<char>> {
        self.palette_names.names()
    }

    /// The palettes, by handle.
    pub closed spec fn palettes(self) -> Seq<Palettes> {
        self.palettes@
    }

    /// Every name has one entry and no name stands twice; every entry is
    /// valid, and every texture names a palette of the registry.
    pub open spec fn wf(self) -> bool {
        &&& self.texture_names().no_duplicates()
        &&& self.palette_names().no_duplicates()
        &&& self.textures().len() == self.texture_names().len()
        &&& self.palettes().len() == self.palette_names().len()
        &&& forall|i: int| 0 <= i < self.textures().len() ==> (#[trigger] self.textures()[i]).valid()
        &&& forall|i: int|
            0 <= i < self.textures().len() ==> (#[trigger] self.textures()[i]).spec_palette()
                < self.palettes().len()
        &&& forall|i: int| 0 <= i < self.palettes().len() ==> (#[trigger] self.palettes()[i]).valid()
    }

    /// Whether two registries hold the same entries under the same names.
    pub open spec fn same_as(self, other: Graphics) -> bool {
        &&& self.texture_names() == other.texture_names()
        &&& self.textures() == other.textures()
        &&& self.palette_names() == other.palette_names()
        &&& self.palettes() == other.palettes()
    }

    /// The empty registry.
    pub fn new() -> (r: Graphics)
        ensures
            r.wf(),
            r.textures().len() == 0,
            r.palettes().len() == 0,
    {
        Graphics {
            texture_names: NameTable::new(),
            textures: Vec::new(),
            palette_names: NameTable::new(),
            palettes: Vec::new(),
        }
    }

    /// The handle of the palette image loaded under `filename`, if one was.
    pub fn palette_handle(&self, filename: &str) -> (r: Option<usize>)
        requires
            self.wf(),
        ensures
            r is Some <==> self.palette_names().contains(filename@),
            r matches Some(handle) ==> handle == self.palette_names().index_of(filename@) && handle
                < self.palettes().len(),
    {
        self.palette_names.find(filename)
    }

    /// The handle of the texture loaded under `filename`, if one was.
    pub fn texture_handle(&self, filename: &str) -> (r: Option<usize>)
        requires
            self.wf(),
        ensures
            r is Some <==> self.texture_names().contains(filename@),
            r matches Some(handle) ==> handle == self.texture_names().index_of(filename@) && handle
                < self.textures().len(),
    {
        self.texture_names.find(filename)
    }

    /// Loads the palette image `image` under `filename` and returns its
    /// handle. A file name that was loaded before keeps its handle and its
    /// palettes: `image` is then not looked at.
    pub fn load_palette(&mut self, filename: &str, image: &RgbaImage) -> (r: Result<
        usize,
        PaletteError,
    >)
        requires
            old(self).wf(),
        ensures
            final(self).wf(),
            final(self).texture_names() == old(self).texture_names(),
            final(self).textures() == old(self).textures(),
            old(self).palette_names().contains(filename@) ==> r == Ok::<usize, PaletteError>(
                old(self).palette_names().index_of(filename@) as usize,
            ) && final(self).same_as(*old(self)),
            !old(self).palette_names().contains(filename@) ==> (r is Err <==> Palettes::spec_refused(
                *image,
            )),
            r matches Err(e) ==> e == PaletteError::TooWide && final(self).same_as(*old(self)),
            r matches Ok(handle) ==> {
                &&& (final(self).palette_names(), handle as int) == spec_intern(
                    old(self).palette_names(),
                    filename@,
                )
                &&& handle < final(self).palettes().len()
                &&& !old(self).palette_names().contains(filename@) ==> final(self).palettes()
                    == old(self).palettes().push(final(self).palettes()[handle as int])
                    && final(self).palettes()[handle as int].spec_read_from(*image)
            },
    {
        match self.palette_names.find(filename) {
            Some(handle) => Ok(handle),
            None => {
                match Palettes::load(image) {
                    Err(e) => Err(e),
                    Ok(palettes) => {
                        proof {
                            use_type_invariant(&palettes);
                        }
                        let (handle, _) = self.palette_names.intern(filename);
                        self.palettes.push(palettes);
                        Ok(handle)
                    },
                }
            },
        }
    }

    /// Quantizes the sprite `image` with row `palette_id` of the palette
    /// image `palette`, and keeps it under `filename`. A file name that was
    /// loaded before keeps its handle and its texture, whatever palette is
    /// named this time: the sprite is then not looked at and nothing is to be
    /// uploaded.
    pub fn load_texture(
        &mut self,
        filename: &str,
        palette: usize,
        palette_id: usize,
        image: &RgbaImage,
    ) -> (r: Result<Loaded, GraphicsError>)
        requires
            old(self).wf(),
        ensures
            final(self).wf(),
            final(self).palette_names() == old(self).palette_names(),
            final(self).palettes() == old(self).palettes(),
            old(self).texture_names().contains(filename@) ==> final(self).same_as(*old(self)) && (r matches Ok(
                loaded,
            ) && loaded.handle == old(self).texture_names().index_of(filename@) && !loaded.fresh
                && loaded.missing@.len() == 0),
            !old(self).texture_names().contains(filename@) ==> (match r {
                Ok(_) => old(self).spec_refusal(palette, palette_id) is None,
                Err(e) => old(self).spec_refusal(palette, palette_id) == Some(e),
            }),
            r is Err ==> final(self).same_as(*old(self)),
            r matches Ok(loaded) ==> {
                &&& (final(self).texture_names(), loaded.handle as int) == spec_intern(
                    old(self).texture_names(),
                    filename@,
                )
                &&& loaded.handle < final(self).textures().len()
                &&& loaded.fresh == !old(self).texture_names().contains(filename@)
                &&& loaded.fresh ==> {
                    let colors = old(self).palettes()[palette as int].spec_rows()[palette_id as int].spec_colors();
                    let texture = final(self).textures()[loaded.handle as int];
                    &&& final(self).textures() == old(self).textures().push(texture)
                    &&& texture.spec_quantized_from(colors, *image)
                    &&& texture.spec_palette() == palette
                    &&& loaded.missing@ == spec_missing(colors, image.spec_pixels(), image.spec_width())
                }
            },
    {
        match self.texture_names.find(filename) {
            Some(handle) => Ok(Loaded { handle, fresh: false, missing: Vec::new() }),
            None => {
                if palette >= self.palettes.len() {
                    return Err(GraphicsError::NoSuchPalette);
                }
                match Texture::load(&self.palettes[palette], palette, image, palette_id) {
                    Err(_) => Err(GraphicsError::NoSuchRow),
                    Ok((texture, missing)) => {
                        let (handle, _) = self.texture_names.intern(filename);
                        self.textures.push(texture);
                        Ok(Loaded { handle, fresh: true, missing })
                    },
                }
            },
        }
    }

    /// Why a new texture cannot be quantized with row `palette_id` of the
    /// palette image `palette`, if it cannot.
    pub open spec fn spec_refusal(self, palette: usize, palette_id: usize) -> Option<GraphicsError> {
        if palette >= self.palettes().len() {
            Some(GraphicsError::NoSuchPalette)
        } else if palette_id >= self.palettes()[palette as int].spec_rows().len() {
            Some(GraphicsError::NoSuchRow)
        } else {
            None
        }
    }

    /// The texture with the given handle; `None` where there is none.
    pub fn get_texture(&self, texture: usize) -> (r: Option<&Texture>)
        requires
            self.wf(),
        ensures
            r is Some <==> texture < self.textures().len(),
            r matches Some(found) ==> *found == self.textures()[texture as int] && found.valid()
                && found.spec_palette() < self.palettes().len(),
    {
        if texture < self.textures.len() {
            Some(&self.textures[texture])
        } else {
            None
        }
    }

    /// The palettes with the given handle; `None` where there are none.
    pub fn get_palette(&self, palette: usize) -> (r: Option<&Palettes>)
        requires
            self.wf(),
        ensures
            r is Some <==> palette < self.palettes().len(),
            r matches Some(found) ==> *found == self.palettes()[palette as int] && found.valid(),
    {
        if palette < self.palettes.len() {
            Some(&self.palettes[palette])
        } else {
            None
        }
    }

    /// The palette image that the texture with the handle `texture` was
    /// quantized with.
    pub open spec fn spec_palette_of(self, texture: usize) -> Palettes {
        self.palettes()[self.textures()[texture as int].spec_palette() as int]
    }

    /// The palette row that a texture is drawn with: the first row of the
    /// palette image that it was quantized with. `None` where the registry
    /// holds no such texture, or where that palette image has no row.
    pub fn draw_palette(&self, texture: usize) -> (r: Option<(usize, usize)>)
        requires
            self.wf(),
        ensures
            r == (if texture < self.textures().len() && self.spec_palette_of(texture).spec_rows().len() > 0 {
                Some((self.textures()[texture as int].spec_palette(), 0usize))
            } else {
                None
            }),
    {
        match self.get_texture(texture) {
            Some(found) => {
                let palette = found.palette();
                match self.get_palette(palette) {
                    Some(rows) => {
                        if rows.len() > 0 {
                            Some((palette, 0))
                        } else {
                            None
                        }
                    },
                    None => None,
                }
            },
            None => None,
        }
    }

    /// The number of textures held.
    pub fn texture_count(&self) -> (r: usize)
        ensures
            r == self.textures().len(),
    {
        self.textures.len()
    }

    /// The number of palette images held.
    pub fn palette_count(&self) -> (r: usize)
        ensures
            r == self.palettes().len(),
    {
        self.palettes.len()
    }
}

} // verus!
