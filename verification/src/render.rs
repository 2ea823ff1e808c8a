//! The order of work of one frame: the image is cut into tiles, every pixel of
//! a tile is shaded, and each finished tile is written into the frame. What a
//! pixel's colour is, the caller says by the function it hands in.

use crate::image::{lemma_merged_pixel, tile_offset, Image};
use crate::scene::{lights_of, Light, Scene};
use crate::texture::{tex_for_mat, Tex};
use crate::tiles::{
    lemma_tiles_partition, tile_count, tile_rect, tiles_along, Tile, TILE_SIZE,
};
use vstd::prelude::*;

verus! {

/// The colours of the pixels of `tile`, row by row, each as `shade` gives it.
pub fn render_tile<P, F: Fn(usize, usize) -> P>(tile: &Tile, shade: &F) -> (colors: Vec<P>)
    requires
        tile.x0 <= tile.x1,
        tile.y0 <= tile.y1,
        forall|x: usize, y: usize|
            tile.contains(x as int, y as int) ==> #[trigger] call_requires(shade, (x, y)),
    ensures
        colors@.len() == tile.area(),
        forall|x: usize, y: usize|
            tile.contains(x as int, y as int) ==> call_ensures(
                shade,
                (x, y),
                #[trigger] colors@[tile_offset(*tile, x as int, y as int)],
            ),
{
    let mut colors: Vec<P> = Vec::new();
    let mut y: usize = tile.y0;
    while y < tile.y1
        invariant
            tile.x0 <= tile.x1,
            tile.y0 <= y <= tile.y1,
            forall|x: usize, y: usize|
                tile.contains(x as int, y as int) ==> #[trigger] call_requires(shade, (x, y)),
            colors@.len() == (y - tile.y0) * tile.width(),
            forall|px: usize, py: usize|
                tile.contains(px as int, py as int) && py < y ==> call_ensures(
                    shade,
                    (px, py),
                    #[trigger] colors@[tile_offset(*tile, px as int, py as int)],
                ),
        decreases tile.y1 - y,
    {
        let mut x: usize = tile.x0;
        while x < tile.x1
            invariant
                tile.x0 <= x <= tile.x1,
                tile.y0 <= y < tile.y1,
                forall|x: usize, y: usize|
                    tile.contains(x as int, y as int) ==> #[trigger] call_requires(shade, (x, y)),
                colors@.len() == (y - tile.y0) * tile.width() + (x - tile.x0),
                forall|px: usize, py: usize|
                    tile.contains(px as int, py as int) && (py < y || (py == y && px < x))
                        ==> call_ensures(
                        shade,
                        (px, py),
                        #[trigger] colors@[tile_offset(*tile, px as int, py as int)],
                    ),
            decreases tile.x1 - x,
        {
            let c: P = shade(x, y);
            let ghost before = colors@;
            colors.push(c);
            proof {
                assert forall|px: usize, py: usize|
                    tile.contains(px as int, py as int) && (py < y || (py == y && px < x + 1))
                    implies call_ensures(
                    shade,
                    (px, py),
                    #[trigger] colors@[tile_offset(*tile, px as int, py as int)],
                ) by {
                    let off = tile_offset(*tile, px as int, py as int);
                    if py == y && px == x {
                        assert(off == before.len());
                    } else {
                        lemma_offset_order(*tile, px as int, py as int, x as int, y as int);
                        assert(colors@[off] == before[off]);
                    }
                }
            }
            x += 1;
        }
        proof {
            assert((y + 1 - tile.y0) * tile.width() == (y - tile.y0) * tile.width() + tile.width())
                by (nonlinear_arith);
        }
        y += 1;
    }
    proof {
        assert(tile.height() * tile.width() == tile.width() * tile.height()) by (nonlinear_arith);
    }
    colors
}

/// A pixel of the tile that comes before another, row by row, has the smaller
/// place among the tile's pixels.
proof fn lemma_offset_order(tile: Tile, px: int, py: int, x: int, y: int)
    requires
        tile.contains(px, py),
        tile.x0 <= x <= tile.x1,
        tile.y0 <= y,
        py < y || (py == y && px < x),
    ensures
        0 <= tile_offset(tile, px, py) < tile_offset(tile, x, y),
{
    let w = tile.width();
    assert(0 <= (py - tile.y0) * w) by (nonlinear_arith)
        requires
            0 <= py - tile.y0,
            0 <= w,
    ;
    if py < y {
        assert((py - tile.y0) * w + w <= (y - tile.y0) * w) by (nonlinear_arith)
            requires
                py - tile.y0 + 1 <= y - tile.y0,
                0 <= w,
        ;
    }
}

/// Shades every pixel of the image, tile by tile: the tiles of the grid from
/// the top row down and from the left, each written into the image when it is
/// finished.
pub fn render_tiles<P: Copy, F: Fn(usize, usize) -> P>(img: &mut Image<P>, tilesz: usize, shade: &F)
    requires
        old(img).wf(),
        tilesz > 0,
        forall|x: usize, y: usize|
            x < old(img).w && y < old(img).h ==> #[trigger] call_requires(shade, (x, y)),
    ensures
        final(img).w == old(img).w,
        final(img).h == old(img).h,
        final(img).wf(),
        forall|x: usize, y: usize|
            x < old(img).w && y < old(img).h ==> call_ensures(
                shade,
                (x, y),
                #[trigger] final(img).pixel(x as int, y as int),
            ),
{
    let w: usize = img.w;
    let h: usize = img.h;
    let ntx: usize = tile_count(w, tilesz);
    let nty: usize = tile_count(h, tilesz);
    let mut ty: usize = 0;
    while ty < nty
        invariant
            img.w == w,
            img.h == h,
            img.wf(),
            tilesz > 0,
            ntx == tiles_along(w as int, tilesz as int),
            nty == tiles_along(h as int, tilesz as int),
            ty <= nty,
            forall|x: usize, y: usize| x < w && y < h ==> #[trigger] call_requires(shade, (x, y)),
            forall|x: usize, y: usize|
                x < w && y < h && (y as int) / (tilesz as int) < ty ==> call_ensures(
                    shade,
                    (x, y),
                    #[trigger] img.pixel(x as int, y as int),
                ),
        decreases nty - ty,
    {
        let mut tx: usize = 0;
        while tx < ntx
            invariant
                img.w == w,
                img.h == h,
                img.wf(),
                tilesz > 0,
                ntx == tiles_along(w as int, tilesz as int),
                nty == tiles_along(h as int, tilesz as int),
                ty < nty,
                tx <= ntx,
                forall|x: usize, y: usize| x < w && y < h ==> #[trigger] call_requires(shade, (x, y)),
                forall|x: usize, y: usize|
                    x < w && y < h && ((y as int) / (tilesz as int) < ty || ((y as int) / (
                    tilesz as int) == ty && (x as int) / (tilesz as int) < tx)) ==> call_ensures(
                        shade,
                        (x, y),
                        #[trigger] img.pixel(x as int, y as int),
                    ),
            decreases ntx - tx,
        {
            let tile: Tile = tile_rect(tx, ty, w, h, tilesz);
            let colors: Vec<P> = render_tile(&tile, shade);
            let ghost before = img.data@;
            let ghost img0 = *img;
            img.write_tile(&tile, &colors);
            proof {
                assert forall|x: usize, y: usize|
                    x < w && y < h && ((y as int) / (tilesz as int) < ty || ((y as int) / (
                    tilesz as int) == ty && (x as int) / (tilesz as int) < tx + 1))
                    implies call_ensures(
                    shade,
                    (x, y),
                    #[trigger] img.pixel(x as int, y as int),
                ) by {
                    lemma_tiles_partition(
                        x as int,
                        y as int,
                        tile,
                        tx as int,
                        ty as int,
                        w as int,
                        h as int,
                        tilesz as int,
                    );
                    lemma_merged_pixel(before, w as int, h as int, tile, colors@, x as int, y as int);
                    if tile.contains(x as int, y as int) {
                        assert(call_ensures(
                            shade,
                            (x, y),
                            colors@[tile_offset(tile, x as int, y as int)],
                        ));
                    } else {
                        assert(img.pixel(x as int, y as int) == img0.pixel(x as int, y as int));
                    }
                }
            }
            tx += 1;
        }
        proof {
            assert forall|x: usize, y: usize|
                x < w && y < h && (y as int) / (tilesz as int) < ty + 1 implies call_ensures(
                shade,
                (x, y),
                #[trigger] img.pixel(x as int, y as int),
            ) by {
                crate::tiles::lemma_tile_number_in_range(x as int, w as int, tilesz as int);
            }
        }
        ty += 1;
    }
    proof {
        assert forall|x: usize, y: usize| x < w && y < h implies call_ensures(
            shade,
            (x, y),
            #[trigger] img.pixel(x as int, y as int),
        ) by {
            crate::tiles::lemma_tile_number_in_range(y as int, h as int, tilesz as int);
        }
    }
}

/// Number of faces of a sky box.
pub const SKY_FACES: usize = 6;

/// What the renderer keeps between frames: the size of the frame, the number
/// of samples for each pixel, the scene and what was derived from it.
#[derive(Debug)]
pub struct Renderer {
    pub w: usize,
    pub h: usize,
    /// Samples for each pixel.
    pub spp: usize,
    /// Side of a tile.
    pub tilesz: usize,
    pub scene: Option<Scene>,
    /// The texture of each material, where it has one that could be read.
    pub tex_cache: Vec<Option<Tex>>,
    /// The textures of the sky box, right, left, top, bottom, front, back.
    pub skybox_cache: Vec<Option<Tex>>,
    /// The lights that the boxes of the scene stand for.
    pub lights: Vec<Light>,
    /// Whether a ray that hits nothing sees the computed sky and not the sky box.
    pub use_procedural_sky: bool,
}

impl Renderer {
    /// What was derived from the scene belongs to it: a place in the texture
    /// cache for each material, six for the sky box, every texture sound, and
    /// the lights those of the scene's boxes.
    pub open spec fn wf(&self) -> bool {
        &&& self.tilesz > 0
        &&& forall|i: int|
            0 <= i < self.tex_cache@.len() ==> ((#[trigger] self.tex_cache@[i]) matches Some(t)
                ==> t.wf())
        &&& forall|i: int|
            0 <= i < self.skybox_cache@.len() ==> ((#[trigger] self.skybox_cache@[i]) matches Some(
                t,
            ) ==> t.wf())
        &&& match self.scene {
            Some(scene) => {
                &&& scene.wf()
                &&& self.tex_cache@.len() == scene.materials@.len()
                &&& self.skybox_cache@.len() == SKY_FACES
                &&& self.lights@ == lights_of(scene.materials@, scene.voxels@, scene.voxels@.len())
            },
            None => self.tex_cache@.len() == 0 && self.lights@.len() == 0,
        }
    }

    /// A renderer for frames of `w` by `h` pixels with `spp` samples each,
    /// without a scene, with the computed sky.
    pub fn new(w: usize, h: usize, spp: usize) -> (r: Renderer)
        ensures
            r.w == w,
            r.h == h,
            r.spp == spp,
            r.tilesz == TILE_SIZE,
            r.scene.is_none(),
            r.tex_cache@.len() == 0,
            r.skybox_cache@.len() == 0,
            r.lights@.len() == 0,
            r.use_procedural_sky,
            r.wf(),
    {
        Renderer {
            w,
            h,
            spp,
            tilesz: TILE_SIZE,
            scene: None,
            tex_cache: Vec::new(),
            skybox_cache: Vec::new(),
            lights: Vec::new(),
            use_procedural_sky: true,
        }
    }

    /// Chooses between the computed sky and the sky box.
    pub fn set_use_procedural_sky(&mut self, v: bool)
        ensures
            *final(self) == (Renderer { use_procedural_sky: v, ..*old(self) }),
    {
        self.use_procedural_sky = v;
    }

    /// Binds a scene, with the textures that were read for its materials and
    /// for the six faces of its sky box, and derives its lights anew.
    pub fn set_scene(&mut self, scene: Scene, textures: Vec<Option<Tex>>, sky: Vec<Option<Tex>>)
        requires
            old(self).tilesz > 0,
            scene.wf(),
            textures@.len() == scene.materials@.len(),
            sky@.len() == SKY_FACES,
            forall|i: int|
                0 <= i < textures@.len() ==> ((#[trigger] textures@[i]) matches Some(t) ==> t.wf()),
            forall|i: int| 0 <= i < sky@.len() ==> ((#[trigger] sky@[i]) matches Some(t) ==> t.wf()),
        ensures
            final(self).wf(),
            final(self).scene == Some(scene),
            final(self).tex_cache == textures,
            final(self).skybox_cache == sky,
            final(self).lights@ == lights_of(scene.materials@, scene.voxels@, scene.voxels@.len()),
            final(self).w == old(self).w,
            final(self).h == old(self).h,
            final(self).spp == old(self).spp,
            final(self).tilesz == old(self).tilesz,
            final(self).use_procedural_sky == old(self).use_procedural_sky,
    {
        self.lights = scene.lights();
        self.tex_cache = textures;
        self.skybox_cache = sky;
        self.scene = Some(scene);
    }

    /// The texture of material `mat_id`, if one was read for it.
    pub fn material_texture(&self, mat_id: usize) -> (t: Option<&Tex>)
        ensures
            t.is_some() <==> (mat_id < self.tex_cache@.len() && self.tex_cache@[mat_id as int].is_some()),
            t matches Some(tex) ==> self.tex_cache@[mat_id as int] == Some(*tex),
    {
        tex_for_mat(mat_id, self.tex_cache.as_slice())
    }

    /// Renders one frame into `img`: every pixel of the frame is shaded, tile
    /// by tile, and the finished frame is copied into `img` as far as `img`
    /// reaches. `blank` is what the frame holds before it is shaded.
    pub fn render_frame<P: Copy, F: Fn(usize, usize) -> P>(
        &self,
        img: &mut Image<P>,
        blank: P,
        shade: &F,
    )
        requires
            self.tilesz > 0,
            self.w * self.h <= usize::MAX,
            old(img).wf(),
            forall|x: usize, y: usize|
                x < self.w && y < self.h ==> #[trigger] call_requires(shade, (x, y)),
        ensures
            final(img).w == old(img).w,
            final(img).h == old(img).h,
            final(img).wf(),
            forall|x: usize, y: usize|
                x < old(img).w && y < old(img).h && x < self.w && y < self.h ==> call_ensures(
                    shade,
                    (x, y),
                    #[trigger] final(img).pixel(x as int, y as int),
                ),
            forall|x: int, y: int|
                0 <= x < old(img).w && 0 <= y < old(img).h && !(x < self.w && y < self.h)
                    ==> #[trigger] final(img).pixel(x, y) == old(img).pixel(x, y),
    {
        let mut fb: Image<P> = Image::new(self.w, self.h, blank);
        render_tiles(&mut fb, self.tilesz, shade);
        img.copy_from(&fb);
        proof {
            assert forall|x: usize, y: usize|
                x < old(img).w && y < old(img).h && x < self.w && y < self.h implies call_ensures(
                shade,
                (x, y),
                #[trigger] img.pixel(x as int, y as int),
            ) by {
                assert(call_ensures(shade, (x, y), fb.pixel(x as int, y as int)));
                assert(img.pixel(x as int, y as int) == fb.pixel(x as int, y as int));
            }
        }
    }
}

} // verus!
