use voxelray::tiles::{tile_count, tile_grid, tile_rect, Tile, TILE_SIZE};

#[test]
fn tile_size_is_thirty_two() {
    assert_eq!(TILE_SIZE, 32);
}

#[test]
fn counts_round_up() {
    assert_eq!(tile_count(960, 32), 30);
    assert_eq!(tile_count(540, 32), 17);
    assert_eq!(tile_count(0, 32), 0);
    assert_eq!(tile_count(1, 32), 1);
    assert_eq!(tile_count(32, 32), 1);
    assert_eq!(tile_count(33, 32), 2);
    assert_eq!(tile_count(usize::MAX, 1), usize::MAX);
    assert_eq!(tile_count(usize::MAX, usize::MAX), 1);
}

#[test]
fn inner_tile_is_full() {
    let t = tile_rect(1, 2, 960, 540, 32);
    assert_eq!(t, Tile { x0: 32, y0: 64, x1: 64, y1: 96 });
}

#[test]
fn edge_tiles_are_clipped() {
    let t = tile_rect(29, 16, 960, 540, 32);
    assert_eq!(t, Tile { x0: 928, y0: 512, x1: 960, y1: 540 });
    let u = tile_rect(2, 1, 70, 45, 32);
    assert_eq!(u, Tile { x0: 64, y0: 32, x1: 70, y1: 45 });
}

#[test]
fn grid_is_row_major() {
    let g = tile_grid(70, 45, 32);
    assert_eq!(g.len(), 6);
    assert_eq!(g[0], Tile { x0: 0, y0: 0, x1: 32, y1: 32 });
    assert_eq!(g[1], Tile { x0: 32, y0: 0, x1: 64, y1: 32 });
    assert_eq!(g[2], Tile { x0: 64, y0: 0, x1: 70, y1: 32 });
    assert_eq!(g[3], Tile { x0: 0, y0: 32, x1: 32, y1: 45 });
    assert_eq!(g[5], Tile { x0: 64, y0: 32, x1: 70, y1: 45 });
}

#[test]
fn grid_of_empty_image_is_empty() {
    assert_eq!(tile_grid(0, 10, 32).len(), 0);
    assert_eq!(tile_grid(10, 0, 32).len(), 0);
}

#[test]
fn every_pixel_lies_in_exactly_one_tile() {
    let (w, h, ts) = (70usize, 45usize, 16usize);
    let g = tile_grid(w, h, ts);
    assert_eq!(g.len(), 5 * 3);
    for y in 0..h {
        for x in 0..w {
            let mut hits = 0;
            for (i, t) in g.iter().enumerate() {
                if t.x0 <= x && x < t.x1 && t.y0 <= y && y < t.y1 {
                    hits += 1;
                    assert_eq!(i, (y / ts) * 5 + x / ts);
                }
            }
            assert_eq!(hits, 1);
        }
    }
}

#[test]
fn frame_of_the_timelapse_has_510_tiles() {
    let g = tile_grid(960, 540, TILE_SIZE);
    assert_eq!(g.len(), 510);
    let area: usize = g.iter().map(|t| (t.x1 - t.x0) * (t.y1 - t.y0)).sum();
    assert_eq!(area, 960 * 540);
}
