use voxelray::image::Image;
use voxelray::render::{render_tile, render_tiles, Renderer, SKY_FACES};
use voxelray::scene::{build_minecraft_house_scene, Scene};
use voxelray::texture::Tex;
use voxelray::tiles::Tile;

fn code(x: usize, y: usize) -> u64 {
    (y as u64) * 1000 + x as u64
}

#[test]
fn tile_is_shaded_row_by_row() {
    let tile = Tile { x0: 2, y0: 5, x1: 5, y1: 7 };
    let colors = render_tile(&tile, &code);
    assert_eq!(colors, vec![5002, 5003, 5004, 6002, 6003, 6004]);
}

#[test]
fn empty_tile_gives_nothing() {
    let tile = Tile { x0: 2, y0: 5, x1: 2, y1: 7 };
    assert!(render_tile(&tile, &code).is_empty());
}

#[test]
fn every_pixel_is_shaded_once() {
    let mut img: Image<u64> = Image::new(70, 45, u64::MAX);
    let calls = std::cell::Cell::new(0usize);
    let shade = |x: usize, y: usize| {
        calls.set(calls.get() + 1);
        code(x, y)
    };
    render_tiles(&mut img, 32, &shade);
    assert_eq!(calls.get(), 70 * 45);
    for y in 0..45 {
        for x in 0..70 {
            assert_eq!(img.get(x, y), code(x, y));
        }
    }
}

#[test]
fn tile_size_does_not_change_the_frame() {
    let mut a: Image<u64> = Image::new(37, 19, 0);
    let mut b: Image<u64> = Image::new(37, 19, 0);
    render_tiles(&mut a, 32, &code);
    render_tiles(&mut b, 5, &code);
    assert_eq!(a.data, b.data);
}

#[test]
fn new_renderer_has_no_scene_and_the_computed_sky() {
    let r = Renderer::new(960, 540, 16);
    assert_eq!((r.w, r.h, r.spp, r.tilesz), (960, 540, 16, 32));
    assert!(r.scene.is_none());
    assert!(r.tex_cache.is_empty());
    assert!(r.lights.is_empty());
    assert!(r.use_procedural_sky);
}

#[test]
fn sky_choice_is_kept() {
    let mut r = Renderer::new(4, 4, 1);
    r.set_use_procedural_sky(false);
    assert!(!r.use_procedural_sky);
    assert_eq!((r.w, r.h, r.spp), (4, 4, 1));
    r.set_use_procedural_sky(true);
    assert!(r.use_procedural_sky);
}

fn no_textures(n: usize) -> Vec<Option<Tex>> {
    let mut v = Vec::new();
    for _ in 0..n {
        v.push(None);
    }
    v
}

#[test]
fn set_scene_derives_the_lights() {
    let mut r = Renderer::new(8, 8, 1);
    let scene = build_minecraft_house_scene();
    let n = scene.materials.len();
    let mut textures = no_textures(n);
    textures[2] = Tex::from_rgb8(1, 1, vec![10, 20, 30]);
    r.set_scene(scene, textures, no_textures(SKY_FACES));
    assert_eq!(r.lights.len(), 4);
    assert_eq!(r.lights[0].voxel, 23);
    assert_eq!(r.tex_cache.len(), 11);
    assert_eq!(r.skybox_cache.len(), 6);
    assert_eq!(r.scene.as_ref().unwrap().voxels.len(), 33);
    assert!(r.material_texture(0).is_none());
    assert_eq!(r.material_texture(2).unwrap().data, vec![10, 20, 30]);
    assert!(r.material_texture(11).is_none());
}

#[test]
fn binding_another_scene_replaces_what_was_derived() {
    let mut r = Renderer::new(8, 8, 1);
    let scene = build_minecraft_house_scene();
    let n = scene.materials.len();
    r.set_scene(scene, no_textures(n), no_textures(SKY_FACES));
    assert_eq!(r.lights.len(), 4);
    r.set_scene(Scene::new(), Vec::new(), no_textures(SKY_FACES));
    assert!(r.lights.is_empty());
    assert!(r.tex_cache.is_empty());
}

#[test]
fn frame_fills_an_image_of_its_size() {
    let r = Renderer::new(40, 33, 1);
    let mut img: Image<u64> = Image::new(40, 33, 0);
    r.render_frame(&mut img, 0, &code);
    for y in 0..33 {
        for x in 0..40 {
            assert_eq!(img.get(x, y), code(x, y));
        }
    }
}

#[test]
fn frame_is_clipped_to_a_smaller_image() {
    let r = Renderer::new(40, 33, 1);
    let mut img: Image<u64> = Image::new(3, 2, 0);
    r.render_frame(&mut img, 0, &code);
    assert_eq!(img.data, vec![0, 1, 2, 1000, 1001, 1002]);
}

#[test]
fn frame_leaves_the_rest_of_a_larger_image() {
    let r = Renderer::new(2, 1, 1);
    let mut img: Image<u64> = Image::new(3, 2, 7);
    r.render_frame(&mut img, 0, &code);
    assert_eq!(img.data, vec![0, 1, 7, 7, 7, 7]);
}

#[test]
fn rendering_twice_gives_the_same_frame() {
    let r = Renderer::new(50, 41, 4);
    let mut a: Image<u64> = Image::new(50, 41, 0);
    let mut b: Image<u64> = Image::new(50, 41, 0);
    r.render_frame(&mut a, 0, &code);
    r.render_frame(&mut b, 0, &code);
    assert_eq!(a.data, b.data);
}
