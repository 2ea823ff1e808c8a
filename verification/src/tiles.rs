//! Partition of an image into square tiles, the unit of parallel work: how
//! many there are, where each lies, and that they cover every pixel once.

use vstd::prelude::*;

verus! {

/// Side of a tile in pixels.
pub const TILE_SIZE: usize = 32;

/// A rectangle of pixels: columns `x0..x1`, rows `y0..y1`.
#[derive(Clone, Copy, Debug, PartialEq, Eq, Structural)]
pub struct Tile {
    pub x0: usize,
    pub y0: usize,
    pub x1: usize,
    pub y1: usize,
}

/// Number of tiles of side `tilesz` needed to cover `len` pixels.
pub open spec fn tiles_along(len: int, tilesz: int) -> int {
    (len + tilesz - 1) / tilesz
}

/// First pixel of tile number `t` along one axis.
pub open spec fn tile_lo(t: int, tilesz: int) -> int {
    t * tilesz
}

/// One past the last pixel of tile number `t` along an axis of `len` pixels.
pub open spec fn tile_hi(t: int, len: int, tilesz: int) -> int {
    if (t + 1) * tilesz < len {
        (t + 1) * tilesz
    } else {
        len
    }
}

impl Tile {
    /// Whether pixel `(x, y)` lies in the tile.
    pub open spec fn contains(&self, x: int, y: int) -> bool {
        self.x0 <= x < self.x1 && self.y0 <= y < self.y1
    }

    /// Width in pixels.
    pub open spec fn width(&self) -> int {
        self.x1 - self.x0
    }

    /// Height in pixels.
    pub open spec fn height(&self) -> int {
        self.y1 - self.y0
    }

    /// Number of pixels.
    pub open spec fn area(&self) -> int {
        self.width() * self.height()
    }

    /// The tile is not inverted and lies inside a `w` by `h` image.
    pub open spec fn within(&self, w: int, h: int) -> bool {
        self.x0 <= self.x1 <= w && self.y0 <= self.y1 <= h
    }

    /// The tile in column `tx`, row `ty` of the grid over a `w` by `h` image.
    pub open spec fn is_grid_tile(&self, tx: int, ty: int, w: int, h: int, tilesz: int) -> bool {
        &&& self.x0 == tile_lo(tx, tilesz)
        &&& self.x1 == tile_hi(tx, w, tilesz)
        &&& self.y0 == tile_lo(ty, tilesz)
        &&& self.y1 == tile_hi(ty, h, tilesz)
    }

    /// The two tiles share no pixel.
    pub open spec fn disjoint(&self, other: Tile) -> bool {
        forall|x: int, y: int| !(self.contains(x, y) && other.contains(x, y))
    }
}

/// Place of the tile in column `tx`, row `ty` in the row-major list of the grid
/// over an image `w` pixels wide.
pub open spec fn grid_index(tx: int, ty: int, w: int, tilesz: int) -> int {
    ty * tiles_along(w, tilesz) + tx
}

/// Facts about a tile number that is in range.
pub proof fn lemma_tile_bounds(t: int, len: int, tilesz: int)
    requires
        tilesz > 0,
        0 <= t < tiles_along(len, tilesz),
    ensures
        0 <= tile_lo(t, tilesz) < tile_hi(t, len, tilesz) <= len,
        tile_hi(t, len, tilesz) - tile_lo(t, tilesz) <= tilesz,
{
    assert(t * tilesz < len && t * tilesz >= 0 && (t + 1) * tilesz == t * tilesz + tilesz)
        by (nonlinear_arith)
        requires
            tilesz > 0,
            0 <= t < (len + tilesz - 1) / tilesz,
    ;
}

/// Number of tiles of side `tilesz` needed to cover `len` pixels.
pub fn tile_count(len: usize, tilesz: usize) -> (n: usize)
    requires
        tilesz > 0,
    ensures
        n == tiles_along(len as int, tilesz as int),
        n <= len,
{
    let q: usize = len / tilesz;
    let r: usize = len % tilesz;
    assert(r == 0 ==> (len + tilesz - 1) / (tilesz as int) == q) by (nonlinear_arith)
        requires
            tilesz > 0,
            q == len / tilesz,
            r == len % tilesz,
    ;
    assert(r != 0 ==> (len + tilesz - 1) / (tilesz as int) == q + 1 && q < len)
        by (nonlinear_arith)
        requires
            tilesz > 0,
            q == len / tilesz,
            r == len % tilesz,
    ;
    assert(q <= len) by (nonlinear_arith)
        requires
            tilesz > 0,
            q == len / tilesz,
    ;
    if r == 0 {
        q
    } else {
        q + 1
    }
}

/// The tile in column `tx`, row `ty` of the grid over a `w` by `h` image,
/// clipped at the right and bottom edges.
pub fn tile_rect(tx: usize, ty: usize, w: usize, h: usize, tilesz: usize) -> (t: Tile)
    requires
        tilesz > 0,
        tx < tiles_along(w as int, tilesz as int),
        ty < tiles_along(h as int, tilesz as int),
    ensures
        t.is_grid_tile(tx as int, ty as int, w as int, h as int, tilesz as int),
        t.within(w as int, h as int),
        t.x0 < t.x1,
        t.y0 < t.y1,
{
    proof {
        lemma_tile_bounds(tx as int, w as int, tilesz as int);
        lemma_tile_bounds(ty as int, h as int, tilesz as int);
        assert((tx + 1) * tilesz == tx * tilesz + tilesz) by (nonlinear_arith);
        assert((ty + 1) * tilesz == ty * tilesz + tilesz) by (nonlinear_arith);
    }
    let x0: usize = tx * tilesz;
    let y0: usize = ty * tilesz;
    let x1: usize = if w - x0 > tilesz { x0 + tilesz } else { w };
    let y1: usize = if h - y0 > tilesz { y0 + tilesz } else { h };
    Tile { x0, y0, x1, y1 }
}

/// The number `x / tilesz` of the tile that holds position `x` is in range.
pub proof fn lemma_tile_number_in_range(x: int, len: int, tilesz: int)
    requires
        tilesz > 0,
        0 <= x < len,
    ensures
        0 <= x / tilesz < tiles_along(len, tilesz),
{
    let q = x / tilesz;
    assert(0 <= q && q < (len + tilesz - 1) / tilesz) by (nonlinear_arith)
        requires
            tilesz > 0,
            0 <= x < len,
            q == x / tilesz,
    ;
}

/// The grid tile that holds position `x` along one axis is number `x / tilesz`,
/// and no other tile holds it.
pub proof fn lemma_tile_of_position(x: int, t: int, len: int, tilesz: int)
    requires
        tilesz > 0,
        0 <= x < len,
        0 <= t < tiles_along(len, tilesz),
    ensures
        0 <= x / tilesz < tiles_along(len, tilesz),
        (tile_lo(t, tilesz) <= x < tile_hi(t, len, tilesz)) <==> t == x / tilesz,
{
    let q = x / tilesz;
    assert(0 <= q && q * tilesz <= x < (q + 1) * tilesz && q < (len + tilesz - 1) / tilesz)
        by (nonlinear_arith)
        requires
            tilesz > 0,
            0 <= x < len,
            q == x / tilesz,
    ;
    if t < q {
        assert((t + 1) * tilesz <= q * tilesz) by (nonlinear_arith)
            requires
                t + 1 <= q,
                tilesz > 0,
        ;
    }
    if t > q {
        assert((q + 1) * tilesz <= t * tilesz) by (nonlinear_arith)
            requires
                q + 1 <= t,
                tilesz > 0,
        ;
    }
}

/// Every pixel of the image lies in exactly one tile of the grid: the one in
/// column `x / tilesz`, row `y / tilesz`.
pub proof fn lemma_tiles_partition(
    x: int,
    y: int,
    tile: Tile,
    tx: int,
    ty: int,
    w: int,
    h: int,
    tilesz: int,
)
    requires
        tilesz > 0,
        0 <= x < w,
        0 <= y < h,
        0 <= tx < tiles_along(w, tilesz),
        0 <= ty < tiles_along(h, tilesz),
        tile.is_grid_tile(tx, ty, w, h, tilesz),
    ensures
        0 <= x / tilesz < tiles_along(w, tilesz),
        0 <= y / tilesz < tiles_along(h, tilesz),
        tile.contains(x, y) <==> (tx == x / tilesz && ty == y / tilesz),
{
    lemma_tile_of_position(x, tx, w, tilesz);
    lemma_tile_of_position(y, ty, h, tilesz);
}

/// Two different tiles of the grid share no pixel.
pub proof fn lemma_grid_tiles_disjoint(
    a: Tile,
    ax: int,
    ay: int,
    b: Tile,
    bx: int,
    by: int,
    w: int,
    h: int,
    tilesz: int,
)
    requires
        tilesz > 0,
        0 <= ax < tiles_along(w, tilesz),
        0 <= ay < tiles_along(h, tilesz),
        0 <= bx < tiles_along(w, tilesz),
        0 <= by < tiles_along(h, tilesz),
        a.is_grid_tile(ax, ay, w, h, tilesz),
        b.is_grid_tile(bx, by, w, h, tilesz),
        ax != bx || ay != by,
    ensures
        a.disjoint(b),
{
    assert forall|x: int, y: int| !(a.contains(x, y) && b.contains(x, y)) by {
        if a.contains(x, y) && b.contains(x, y) {
            lemma_tile_bounds(ax, w, tilesz);
            lemma_tile_bounds(ay, h, tilesz);
            lemma_tiles_partition(x, y, a, ax, ay, w, h, tilesz);
            lemma_tiles_partition(x, y, b, bx, by, w, h, tilesz);
        }
    }
}

/// All tiles of the grid over a `w` by `h` image, row by row from the top,
/// each row from the left.
pub fn tile_grid(w: usize, h: usize, tilesz: usize) -> (grid: Vec<Tile>)
    requires
        tilesz > 0,
    ensures
        grid@.len() == tiles_along(w as int, tilesz as int) * tiles_along(h as int, tilesz as int),
        forall|tx: int, ty: int|
            0 <= tx < tiles_along(w as int, tilesz as int) && 0 <= ty < tiles_along(
                h as int,
                tilesz as int,
            ) ==> (#[trigger] grid@[grid_index(tx, ty, w as int, tilesz as int)]).is_grid_tile(
                tx,
                ty,
                w as int,
                h as int,
                tilesz as int,
            ),
{
    let ntx: usize = tile_count(w, tilesz);
    let nty: usize = tile_count(h, tilesz);
    let mut grid: Vec<Tile> = Vec::new();
    let mut ty: usize = 0;
    while ty < nty
        invariant
            tilesz > 0,
            ntx == tiles_along(w as int, tilesz as int),
            nty == tiles_along(h as int, tilesz as int),
            ty <= nty,
            grid@.len() == ty * ntx,
            forall|cx: int, cy: int|
                0 <= cx < ntx && 0 <= cy < ty ==> (#[trigger] grid@[grid_index(
                    cx,
                    cy,
                    w as int,
                    tilesz as int,
                )]).is_grid_tile(cx, cy, w as int, h as int, tilesz as int),
        decreases nty - ty,
    {
        let mut tx: usize = 0;
        while tx < ntx
            invariant
                tilesz > 0,
                ntx == tiles_along(w as int, tilesz as int),
                nty == tiles_along(h as int, tilesz as int),
                ty < nty,
                tx <= ntx,
                grid@.len() == ty * ntx + tx,
                forall|cx: int, cy: int|
                    0 <= cx < ntx && 0 <= cy < ty ==> (#[trigger] grid@[grid_index(
                        cx,
                        cy,
                        w as int,
                        tilesz as int,
                    )]).is_grid_tile(cx, cy, w as int, h as int, tilesz as int),
                forall|cx: int|
                    0 <= cx < tx ==> (#[trigger] grid@[grid_index(
                        cx,
                        ty as int,
                        w as int,
                        tilesz as int,
                    )]).is_grid_tile(cx, ty as int, w as int, h as int, tilesz as int),
            decreases ntx - tx,
        {
            let t = tile_rect(tx, ty, w, h, tilesz);
            let ghost before = grid@;
            grid.push(t);
            proof {
                assert forall|cx: int, cy: int| 0 <= cx < ntx && 0 <= cy < ty implies (
                #[trigger] grid@[grid_index(cx, cy, w as int, tilesz as int)]).is_grid_tile(
                    cx,
                    cy,
                    w as int,
                    h as int,
                    tilesz as int,
                ) by {
                    lemma_grid_index_order(cx, cy, ntx as int, ty as int);
                    assert(grid@[grid_index(cx, cy, w as int, tilesz as int)] == before[grid_index(
                        cx,
                        cy,
                        w as int,
                        tilesz as int,
                    )]);
                }
            }
            tx += 1;
        }
        proof {
            assert((ty + 1) * ntx == ty * ntx + ntx) by (nonlinear_arith);
        }
        ty += 1;
    }
    proof {
        assert(nty * ntx == ntx * nty) by (nonlinear_arith);
    }
    grid
}

/// Rows below `rows` come first in row-major order.
proof fn lemma_grid_index_order(cx: int, cy: int, ntx: int, rows: int)
    requires
        0 <= cx < ntx,
        0 <= cy < rows,
    ensures
        0 <= cy * ntx + cx < rows * ntx,
{
    assert(0 <= cy * ntx && cy * ntx + ntx <= rows * ntx) by (nonlinear_arith)
        requires
            0 <= cy,
            cy + 1 <= rows,
            ntx > 0,
    ;
}

} // verus!
