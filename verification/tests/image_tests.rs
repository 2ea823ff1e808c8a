use voxelray::image::Image;
use voxelray::tiles::Tile;

#[test]
fn new_image_is_filled() {
    let img: Image<u32> = Image::new(3, 2, 7);
    assert_eq!(img.w, 3);
    assert_eq!(img.h, 2);
    assert_eq!(img.data, vec![7; 6]);
}

#[test]
fn empty_image_has_no_data() {
    let img: Image<u8> = Image::new(0, 5, 1);
    assert!(img.data.is_empty());
}

#[test]
fn set_then_get() {
    let mut img: Image<u32> = Image::new(3, 2, 0);
    img.set(2, 1, 9);
    assert_eq!(img.get(2, 1), 9);
    assert_eq!(img.data, vec![0, 0, 0, 0, 0, 9]);
    img.set(1, 0, 4);
    assert_eq!(img.data, vec![0, 4, 0, 0, 0, 9]);
}

#[test]
fn set_outside_is_ignored() {
    let mut img: Image<u32> = Image::new(3, 2, 0);
    img.set(3, 0, 9);
    img.set(0, 2, 9);
    img.set(usize::MAX, usize::MAX, 9);
    assert_eq!(img.data, vec![0; 6]);
}

#[test]
fn write_tile_replaces_only_the_tile() {
    let mut img: Image<u32> = Image::new(4, 3, 0);
    let tile = Tile { x0: 1, y0: 1, x1: 3, y1: 3 };
    img.write_tile(&tile, &vec![1, 2, 3, 4]);
    assert_eq!(img.data, vec![0, 0, 0, 0, 0, 1, 2, 0, 0, 3, 4, 0]);
}

#[test]
fn write_empty_tile_changes_nothing() {
    let mut img: Image<u32> = Image::new(4, 3, 5);
    let tile = Tile { x0: 2, y0: 1, x1: 2, y1: 3 };
    img.write_tile(&tile, &Vec::new());
    assert_eq!(img.data, vec![5; 12]);
}

#[test]
fn disjoint_tiles_merge_in_any_order() {
    let a = Tile { x0: 0, y0: 0, x1: 2, y1: 2 };
    let b = Tile { x0: 2, y0: 0, x1: 4, y1: 2 };
    let ca = vec![1u32, 2, 3, 4];
    let cb = vec![5u32, 6, 7, 8];
    let mut first: Image<u32> = Image::new(4, 2, 0);
    first.write_tile(&a, &ca);
    first.write_tile(&b, &cb);
    let mut second: Image<u32> = Image::new(4, 2, 0);
    second.write_tile(&b, &cb);
    second.write_tile(&a, &ca);
    assert_eq!(first.data, second.data);
    assert_eq!(first.data, vec![1, 2, 5, 6, 3, 4, 7, 8]);
}

#[test]
fn copy_from_smaller_keeps_the_rest() {
    let mut dst: Image<u32> = Image::new(3, 3, 0);
    let mut src: Image<u32> = Image::new(2, 2, 0);
    src.set(0, 0, 1);
    src.set(1, 0, 2);
    src.set(0, 1, 3);
    src.set(1, 1, 4);
    dst.copy_from(&src);
    assert_eq!(dst.data, vec![1, 2, 0, 3, 4, 0, 0, 0, 0]);
}

#[test]
fn copy_from_larger_is_clipped() {
    let mut dst: Image<u32> = Image::new(2, 1, 0);
    let mut src: Image<u32> = Image::new(3, 2, 0);
    let mut k = 1;
    for y in 0..2 {
        for x in 0..3 {
            src.set(x, y, k);
            k += 1;
        }
    }
    dst.copy_from(&src);
    assert_eq!(dst.data, vec![1, 2]);
}
