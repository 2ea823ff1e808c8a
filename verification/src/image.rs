//! A rectangular pixel buffer, addressed row by row, and the merge of finished
//! tiles into it.

use crate::tiles::Tile;
use vstd::prelude::*;

verus! {

/// One display pixel: red, green and blue, eight bits each.
#[derive(Clone, Copy, Debug, PartialEq, Eq, Structural)]
pub struct Rgb {
    pub r: u8,
    pub g: u8,
    pub b: u8,
}

/// Place of pixel `(x, y)` in a row-major buffer `w` pixels wide.
pub open spec fn pixel_index(x: int, y: int, w: int) -> int {
    y * w + x
}

/// Place of pixel `(x, y)` of a tile among the tile's own pixels, row by row.
pub open spec fn tile_offset(tile: Tile, x: int, y: int) -> int {
    (y - tile.y0) * tile.width() + (x - tile.x0)
}

/// The buffer `base`, `w` pixels wide, after the pixels of `tile` were replaced
/// by `colors`, which lists the tile's pixels row by row.
pub open spec fn merged<P>(base: Seq<P>, w: int, tile: Tile, colors: Seq<P>) -> Seq<P> {
    Seq::new(
        base.len(),
        |i: int|
            if w > 0 && tile.contains(i % w, i / w) {
                colors[tile_offset(tile, i % w, i / w)]
            } else {
                base[i]
            },
    )
}

/// Whether position `i` of a buffer `w` pixels wide is a pixel of `tile` that
/// comes, row by row, before column `x` of row `y`.
pub open spec fn written(tile: Tile, w: int, i: int, x: int, y: int) -> bool {
    w > 0 && tile.contains(i % w, i / w) && (i / w < y || (i / w == y && i % w < x))
}

/// Row-major position and coordinates determine each other.
pub proof fn lemma_pixel_index(x: int, y: int, w: int, h: int)
    requires
        0 <= x < w,
        0 <= y < h,
    ensures
        0 <= pixel_index(x, y, w) < w * h,
        pixel_index(x, y, w) % w == x,
        pixel_index(x, y, w) / w == y,
{
    assert(0 <= y * w && y * w + w <= h * w && h * w == w * h) by (nonlinear_arith)
        requires
            0 <= y,
            y + 1 <= h,
            w > 0,
    ;
    vstd::arithmetic::div_mod::lemma_fundamental_div_mod_converse(y * w + x, w, y, x);
}

/// After a merge, a pixel of the tile holds the tile's value for it and every
/// other pixel holds what it held before.
pub proof fn lemma_merged_pixel<P>(
    base: Seq<P>,
    w: int,
    h: int,
    tile: Tile,
    colors: Seq<P>,
    x: int,
    y: int,
)
    requires
        base.len() == w * h,
        0 <= x < w,
        0 <= y < h,
    ensures
        merged(base, w, tile, colors).len() == base.len(),
        tile.contains(x, y) ==> merged(base, w, tile, colors)[pixel_index(x, y, w)]
            == colors[tile_offset(tile, x, y)],
        !tile.contains(x, y) ==> merged(base, w, tile, colors)[pixel_index(x, y, w)]
            == base[pixel_index(x, y, w)],
{
    lemma_pixel_index(x, y, w, h);
}

/// Merging two tiles that share no pixel gives the same buffer in either
/// order: the finished frame does not depend on which tile is written first.
pub proof fn lemma_merge_commutes<P>(
    base: Seq<P>,
    w: int,
    a: Tile,
    ca: Seq<P>,
    b: Tile,
    cb: Seq<P>,
)
    requires
        a.disjoint(b),
    ensures
        merged(merged(base, w, a, ca), w, b, cb) == merged(merged(base, w, b, cb), w, a, ca),
{
    let ab = merged(merged(base, w, a, ca), w, b, cb);
    let ba = merged(merged(base, w, b, cb), w, a, ca);
    assert forall|i: int| 0 <= i < base.len() implies ab[i] == ba[i] by {
        if w > 0 {
            assert(!(a.contains(i % w, i / w) && b.contains(i % w, i / w)));
        }
    }
    assert(ab =~= ba);
}

/// A pixel buffer of `w` columns and `h` rows, stored row by row from the top.
pub struct Image<P> {
    pub w: usize,
    pub h: usize,
    pub data: Vec<P>,
}

impl<P: Copy> Image<P> {
    /// The buffer holds exactly one value for each pixel.
    pub open spec fn wf(&self) -> bool {
        self.data@.len() == self.w * self.h
    }

    /// The value stored for pixel `(x, y)`.
    pub open spec fn pixel(&self, x: int, y: int) -> P {
        self.data@[pixel_index(x, y, self.w as int)]
    }

    /// A buffer of `w` by `h` pixels, each of them `fill`.
    pub fn new(w: usize, h: usize, fill: P) -> (img: Image<P>)
        requires
            w * h <= usize::MAX,
        ensures
            img.w == w,
            img.h == h,
            img.wf(),
            forall|i: int| 0 <= i < w * h ==> img.data@[i] == fill,
    {
        let n: usize = w * h;
        let mut data: Vec<P> = Vec::new();
        let mut i: usize = 0;
        while i < n
            invariant
                i <= n,
                data@.len() == i,
                forall|k: int| 0 <= k < i ==> data@[k] == fill,
            decreases n - i,
        {
            data.push(fill);
            i += 1;
        }
        Image { w, h, data }
    }

    /// Stores `c` at pixel `(x, y)`; a position outside the image is ignored.
    pub fn set(&mut self, x: usize, y: usize, c: P)
        requires
            old(self).wf(),
        ensures
            final(self).w == old(self).w,
            final(self).h == old(self).h,
            final(self).wf(),
            x < old(self).w && y < old(self).h ==> final(self).data@ == old(self).data@.update(
                pixel_index(x as int, y as int, old(self).w as int),
                c,
            ),
            !(x < old(self).w && y < old(self).h) ==> final(self).data@ == old(self).data@,
    {
        if x < self.w && y < self.h {
            proof {
                lemma_pixel_index(x as int, y as int, self.w as int, self.h as int);
            }
            let n: usize = self.data.len();
            assert(y * self.w + x < n);
            let idx: usize = y * self.w + x;
            self.data.set(idx, c);
        }
    }

    /// The value stored at pixel `(x, y)`.
    pub fn get(&self, x: usize, y: usize) -> (c: P)
        requires
            self.wf(),
            x < self.w,
            y < self.h,
        ensures
            c == self.pixel(x as int, y as int),
    {
        proof {
            lemma_pixel_index(x as int, y as int, self.w as int, self.h as int);
        }
        let n: usize = self.data.len();
        assert(y * self.w + x < n);
        self.data[y * self.w + x]
    }

    /// Copies from `src` every pixel that both images have; the other pixels
    /// keep their value.
    pub fn copy_from(&mut self, src: &Image<P>)
        requires
            old(self).wf(),
            src.wf(),
        ensures
            final(self).w == old(self).w,
            final(self).h == old(self).h,
            final(self).wf(),
            forall|x: int, y: int|
                0 <= x < old(self).w && 0 <= y < old(self).h ==> #[trigger] final(self).pixel(x, y)
                    == (if x < src.w && y < src.h {
                    src.pixel(x, y)
                } else {
                    old(self).pixel(x, y)
                }),
    {
        let w: usize = if src.w < self.w { src.w } else { self.w };
        let h: usize = if src.h < self.h { src.h } else { self.h };
        let ghost start = *self;
        let mut y: usize = 0;
        while y < h
            invariant
                self.w == start.w,
                self.h == start.h,
                self.wf(),
                start.wf(),
                src.wf(),
                w <= self.w && w <= src.w,
                h <= self.h && h <= src.h,
                y <= h,
                forall|px: int, py: int|
                    0 <= px < self.w && 0 <= py < self.h ==> #[trigger] self.pixel(px, py) == (if px
                        < w && py < y {
                        src.pixel(px, py)
                    } else {
                        start.pixel(px, py)
                    }),
            decreases h - y,
        {
            let mut x: usize = 0;
            while x < w
                invariant
                    self.w == start.w,
                    self.h == start.h,
                    self.wf(),
                    start.wf(),
                    src.wf(),
                    w <= self.w && w <= src.w,
                    h <= self.h && h <= src.h,
                    y < h,
                    x <= w,
                    forall|px: int, py: int|
                        0 <= px < self.w && 0 <= py < self.h ==> #[trigger] self.pixel(px, py) == (
                        if px < w && (py < y || (py == y && px < x)) {
                            src.pixel(px, py)
                        } else {
                            start.pixel(px, py)
                        }),
                decreases w - x,
            {
                let c: P = src.get(x, y);
                let ghost before = *self;
                self.set(x, y, c);
                proof {
                    assert forall|px: int, py: int| 0 <= px < self.w && 0 <= py < self.h implies (
                    #[trigger] self.pixel(px, py)) == (if px < w && (py < y || (py == y && px < x
                        + 1)) {
                        src.pixel(px, py)
                    } else {
                        start.pixel(px, py)
                    }) by {
                        lemma_pixel_index(px, py, self.w as int, self.h as int);
                        lemma_pixel_index(x as int, y as int, self.w as int, self.h as int);
                        assert(before.pixel(px, py) == (if px < w && (py < y || (py == y && px
                            < x)) {
                            src.pixel(px, py)
                        } else {
                            start.pixel(px, py)
                        }));
                    }
                }
                x += 1;
            }
            y += 1;
        }
    }

    /// Replaces the pixels of `tile` by `colors`, which lists them row by row;
    /// every other pixel keeps its value.
    pub fn write_tile(&mut self, tile: &Tile, colors: &Vec<P>)
        requires
            old(self).wf(),
            tile.within(old(self).w as int, old(self).h as int),
            colors@.len() == tile.area(),
        ensures
            final(self).w == old(self).w,
            final(self).h == old(self).h,
            final(self).wf(),
            final(self).data@ == merged(old(self).data@, old(self).w as int, *tile, colors@),
    {
        let w: usize = self.w;
        let tw: usize = tile.x1 - tile.x0;
        let n: usize = self.data.len();
        let m: usize = colors.len();
        let ghost base = self.data@;
        let mut y: usize = tile.y0;
        while y < tile.y1
            invariant
                self.w == w,
                self.h == old(self).h,
                base == old(self).data@,
                base.len() == w * self.h,
                n == base.len(),
                tile.within(w as int, self.h as int),
                colors@.len() == tile.area(),
                m == colors@.len(),
                tw == tile.width(),
                tile.y0 <= y <= tile.y1,
                self.data@.len() == base.len(),
                forall|i: int|
                    0 <= i < base.len() ==> #[trigger] self.data@[i] == (if written(
                        *tile,
                        w as int,
                        i,
                        tile.x0 as int,
                        y as int,
                    ) {
                        colors@[tile_offset(*tile, i % (w as int), i / (w as int))]
                    } else {
                        base[i]
                    }),
            decreases tile.y1 - y,
        {
            let mut x: usize = tile.x0;
            while x < tile.x1
                invariant
                    self.w == w,
                    self.h == old(self).h,
                    base.len() == w * self.h,
                    n == base.len(),
                    tile.within(w as int, self.h as int),
                    colors@.len() == tile.area(),
                    m == colors@.len(),
                    tw == tile.width(),
                    tile.y0 <= y < tile.y1,
                    tile.x0 <= x <= tile.x1,
                    self.data@.len() == base.len(),
                    forall|i: int|
                        0 <= i < base.len() ==> #[trigger] self.data@[i] == (if written(
                            *tile,
                            w as int,
                            i,
                            x as int,
                            y as int,
                        ) {
                            colors@[tile_offset(*tile, i % (w as int), i / (w as int))]
                        } else {
                            base[i]
                        }),
                decreases tile.x1 - x,
            {
                proof {
                    lemma_pixel_index(x as int, y as int, w as int, self.h as int);
                    lemma_pixel_index(
                        x - tile.x0,
                        y - tile.y0,
                        tile.width(),
                        tile.height(),
                    );
                }
                assert(y * w + x < n);
                assert((y - tile.y0) * tw + (x - tile.x0) < m);
                let idx: usize = y * w + x;
                let k: usize = (y - tile.y0) * tw + (x - tile.x0);
                let ghost before = self.data@;
                self.data.set(idx, colors[k]);
                proof {
                    assert forall|i: int| 0 <= i < base.len() implies #[trigger] self.data@[i] == (
                    if written(*tile, w as int, i, x + 1, y as int) {
                        colors@[tile_offset(*tile, i % (w as int), i / (w as int))]
                    } else {
                        base[i]
                    }) by {
                        vstd::arithmetic::div_mod::lemma_fundamental_div_mod(i, w as int);
                        assert(w * (i / (w as int)) == (i / (w as int)) * w) by (nonlinear_arith);
                        assert(self.data@[i] == if i == idx { colors@[k as int] } else { before[i] });
                    }
                }
                x += 1;
            }
            y += 1;
        }
        proof {
            assert(self.data@ =~= merged(base, w as int, *tile, colors@));
        }
    }
}

} // verus!
