use voxelray::bmp::encode_bmp24;
use voxelray::image::{Image, Rgb};
use voxelray::texture::{load_tex, tex_for_mat, Tex};

fn two_by_two() -> Tex {
    Tex::from_rgb8(2, 2, vec![1, 2, 3, 4, 5, 6, 7, 8, 9, 10, 11, 12]).unwrap()
}

#[test]
fn from_rgb8_keeps_size_and_bytes() {
    let t = two_by_two();
    assert_eq!(t.w, 2);
    assert_eq!(t.h, 2);
    assert_eq!(t.data, vec![1, 2, 3, 4, 5, 6, 7, 8, 9, 10, 11, 12]);
}

#[test]
fn from_rgb8_refuses_wrong_length() {
    assert!(Tex::from_rgb8(2, 2, vec![0; 11]).is_none());
    assert!(Tex::from_rgb8(2, 2, vec![0; 13]).is_none());
    assert!(Tex::from_rgb8(2, 2, vec![0; 15]).is_none());
    assert!(Tex::from_rgb8(2, 2, Vec::new()).is_none());
}

#[test]
fn from_rgb8_refuses_empty_sides() {
    assert!(Tex::from_rgb8(0, 0, Vec::new()).is_none());
    assert!(Tex::from_rgb8(0, 4, Vec::new()).is_none());
    assert!(Tex::from_rgb8(4, 0, Vec::new()).is_none());
}

#[test]
fn from_rgb8_refuses_sizes_that_only_match_after_overflow() {
    assert!(Tex::from_rgb8(u32::MAX, u32::MAX, vec![0; 3]).is_none());
}

#[test]
fn texel_reads_three_bytes() {
    let t = two_by_two();
    assert_eq!(t.texel(0, 0), Rgb { r: 1, g: 2, b: 3 });
    assert_eq!(t.texel(1, 0), Rgb { r: 4, g: 5, b: 6 });
    assert_eq!(t.texel(0, 1), Rgb { r: 7, g: 8, b: 9 });
    assert_eq!(t.texel(1, 1), Rgb { r: 10, g: 11, b: 12 });
}

#[test]
fn tex_for_mat_finds_what_is_cached() {
    let cache = vec![None, Some(two_by_two()), None];
    assert!(tex_for_mat(0, &cache).is_none());
    assert_eq!(tex_for_mat(1, &cache).unwrap().w, 2);
    assert!(tex_for_mat(2, &cache).is_none());
}

#[test]
fn tex_for_mat_beyond_the_cache_is_none() {
    let cache = vec![Some(two_by_two())];
    assert!(tex_for_mat(1, &cache).is_none());
    assert!(tex_for_mat(usize::MAX, &cache).is_none());
    assert!(tex_for_mat(0, &Vec::new()).is_none());
}

fn small_bitmap() -> Vec<u8> {
    let mut img: Image<Rgb> = Image::new(2, 2, Rgb { r: 0, g: 0, b: 0 });
    img.set(0, 0, Rgb { r: 1, g: 2, b: 3 });
    img.set(1, 0, Rgb { r: 4, g: 5, b: 6 });
    img.set(0, 1, Rgb { r: 7, g: 8, b: 9 });
    img.set(1, 1, Rgb { r: 10, g: 11, b: 12 });
    encode_bmp24(&img).unwrap()
}

#[test]
fn load_tex_reads_back_an_encoded_bitmap() {
    let t = load_tex("assets/textures/any.bmp", &small_bitmap()).unwrap();
    assert_eq!((t.w, t.h), (2, 2));
    assert_eq!(t.data, vec![1, 2, 3, 4, 5, 6, 7, 8, 9, 10, 11, 12]);
    assert_eq!(t.texel(1, 1), Rgb { r: 10, g: 11, b: 12 });
}

#[test]
fn load_tex_goes_by_the_extension() {
    let bytes = small_bitmap();
    assert!(load_tex("any.BMP", &bytes).is_some());
    assert!(load_tex("any.png", &bytes).is_none());
    assert!(load_tex("any.jpeg", &bytes).is_none());
    assert!(load_tex("any.txt", &bytes).is_none());
    assert!(load_tex("any", &bytes).is_none());
}

#[test]
fn load_tex_refuses_damaged_files() {
    let bytes = small_bitmap();
    assert!(load_tex("any.bmp", &[]).is_none());
    assert!(load_tex("any.bmp", &bytes[..20]).is_none());
    assert!(load_tex("any.png", b"not a picture").is_none());
    assert!(load_tex("any.jpg", b"not a picture").is_none());
}

#[test]
fn load_tex_reads_a_png() {
    let mut picture = image::RgbImage::new(3, 1);
    picture.put_pixel(0, 0, image::Rgb([200, 100, 50]));
    picture.put_pixel(1, 0, image::Rgb([1, 2, 3]));
    picture.put_pixel(2, 0, image::Rgb([255, 0, 255]));
    let mut bytes = std::io::Cursor::new(Vec::new());
    picture.write_to(&mut bytes, image::ImageOutputFormat::Png).unwrap();
    let t = load_tex("leaf.png", bytes.get_ref()).unwrap();
    assert_eq!((t.w, t.h), (3, 1));
    assert_eq!(t.data, vec![200, 100, 50, 1, 2, 3, 255, 0, 255]);
}
