//! The size model: pixel dimensions, tile positions, and the divisibility
//! relation between an origin size and a tile size.
//!
//! The divisibility relation is established once, when a [`Grid`] is
//! constructed, and trusted thereafter: operations that need it take the
//! validated `Grid` as a witness instead of re-checking per tile.

use vstd::prelude::*;

use crate::error::Error;

verus! {

/// Pixel dimensions of an image.
#[derive(Clone, Copy, PartialEq, Eq, Structural, Debug)]
pub struct Size {
    pub width: u32,
    pub height: u32,
}

/// Top-left pixel coordinate of a tile within the origin's pixel grid.
#[derive(Clone, Copy, PartialEq, Eq, Structural, Debug, Hash)]
pub struct Position {
    pub x: u32,
    pub y: u32,
}

/// The divisibility relation: `tile` evenly divides `origin` in both
/// dimensions, with positive tile dimensions so that the quotients exist.
pub open spec fn divides(origin: Size, tile: Size) -> bool {
    &&& tile.width > 0
    &&& tile.height > 0
    &&& origin.width as int % tile.width as int == 0
    &&& origin.height as int % tile.height as int == 0
}

/// A validated origin/tile size pairing.
///
/// Its invariant ([`Grid::wf`]) holds by construction: the tile size evenly
/// divides the positive origin size, so the origin splits into exactly
/// `num_x * num_y` non-overlapping tiles, indexed in row-major order.
#[derive(Clone, Copy, PartialEq, Eq, Structural, Debug)]
pub struct Grid {
    origin: Size,
    tile: Size,
}

impl Grid {
    pub closed spec fn spec_origin(self) -> Size {
        self.origin
    }

    pub closed spec fn spec_tile(self) -> Size {
        self.tile
    }

    /// Well-formedness: established by [`Grid::new`] and preserved forever
    /// (the fields are immutable).
    pub open spec fn wf(self) -> bool {
        &&& divides(self.spec_origin(), self.spec_tile())
        &&& self.spec_origin().width > 0
        &&& self.spec_origin().height > 0
    }

    /// Number of tile columns.
    pub open spec fn spec_num_x(self) -> int {
        self.spec_origin().width as int / self.spec_tile().width as int
    }

    /// Number of tile rows.
    pub open spec fn spec_num_y(self) -> int {
        self.spec_origin().height as int / self.spec_tile().height as int
    }

    /// Total number of tile slots in the grid.
    pub open spec fn spec_num_tiles(self) -> int {
        self.spec_num_x() * self.spec_num_y()
    }

    /// Pixel x-coordinate of the tile with row-major index `idx`.
    pub open spec fn spec_pos_x(self, idx: int) -> int {
        (idx % self.spec_num_x()) * self.spec_tile().width as int
    }

    /// Pixel y-coordinate of the tile with row-major index `idx`.
    pub open spec fn spec_pos_y(self, idx: int) -> int {
        (idx / self.spec_num_x()) * self.spec_tile().height as int
    }

    /// Validates the pairing, establishing the divisibility relation once.
    pub fn new(origin: Size, tile: Size) -> (r: Result<Grid, Error>)
        ensures
            r is Ok <==> divides(origin, tile) && origin.width > 0 && origin.height > 0,
            r matches Ok(g) ==> g.spec_origin() == origin && g.spec_tile() == tile && g.wf(),
            r matches Err(e) ==> e == (Error::IndivisibleSizes { origin, tile }),
    {
        if tile.width > 0 && tile.height > 0 && origin.width % tile.width == 0
            && origin.height % tile.height == 0 && origin.width > 0 && origin.height > 0 {
            Ok(Grid { origin, tile })
        } else {
            Err(Error::IndivisibleSizes { origin, tile })
        }
    }

    pub fn origin(&self) -> (s: Size)
        ensures
            s == self.spec_origin(),
    {
        self.origin
    }

    pub fn tile(&self) -> (s: Size)
        ensures
            s == self.spec_tile(),
    {
        self.tile
    }

    pub fn num_x(&self) -> (n: u32)
        requires
            self.wf(),
        ensures
            n == self.spec_num_x(),
            1 <= n,
    {
        proof {
            lemma_div_quotient_bounds(self.origin.width as int, self.tile.width as int);
        }
        self.origin.width / self.tile.width
    }

    pub fn num_y(&self) -> (n: u32)
        requires
            self.wf(),
        ensures
            n == self.spec_num_y(),
            1 <= n,
    {
        proof {
            lemma_div_quotient_bounds(self.origin.height as int, self.tile.height as int);
        }
        self.origin.height / self.tile.height
    }

    pub fn num_tiles(&self) -> (n: u64)
        requires
            self.wf(),
        ensures
            n == self.spec_num_tiles(),
            1 <= n,
    {
        let nx = self.num_x();
        let ny = self.num_y();
        proof {
            assert((nx as int) * (ny as int) <= u64::MAX as int && 1 <= (nx as int) * (ny as int))
                by (nonlinear_arith)
                requires
                    1 <= nx <= u32::MAX,
                    1 <= ny <= u32::MAX,
            ;
        }
        (nx as u64) * (ny as u64)
    }

    /// Derives a tile's pixel position from its row-major index.
    pub fn index_to_pos(&self, idx: u64) -> (p: Position)
        requires
            self.wf(),
            idx < self.spec_num_tiles(),
        ensures
            p.x == self.spec_pos_x(idx as int),
            p.y == self.spec_pos_y(idx as int),
    {
        let nx = self.num_x();
        proof {
            self.lemma_pos_in_bounds(idx as int);
            assert(idx as int % nx as int == (idx % (nx as u64)) as int);
            assert(idx as int / nx as int == (idx / (nx as u64)) as int);
        }
        let x = ((idx % (nx as u64)) as u32) * self.tile.width;
        let y = ((idx / (nx as u64)) as u32) * self.tile.height;
        Position { x, y }
    }

    /// A well-formed grid has at least one tile.
    pub proof fn lemma_num_tiles_pos(self)
        requires
            self.wf(),
        ensures
            self.spec_num_tiles() >= 1,
            self.spec_num_x() >= 1,
            self.spec_num_y() >= 1,
    {
        lemma_div_quotient_bounds(self.spec_origin().width as int, self.spec_tile().width as int);
        lemma_div_quotient_bounds(self.spec_origin().height as int, self.spec_tile().height as int);
        assert(self.spec_num_x() * self.spec_num_y() >= 1) by (nonlinear_arith)
            requires
                self.spec_num_x() >= 1,
                self.spec_num_y() >= 1,
        ;
    }

    /// Every tile position lies within the origin rectangle and is an exact
    /// multiple of the tile dimensions.
    pub proof fn lemma_pos_in_bounds(self, idx: int)
        requires
            self.wf(),
            0 <= idx < self.spec_num_tiles(),
        ensures
            0 <= self.spec_pos_x(idx),
            self.spec_pos_x(idx) + self.spec_tile().width <= self.spec_origin().width,
            0 <= self.spec_pos_y(idx),
            self.spec_pos_y(idx) + self.spec_tile().height <= self.spec_origin().height,
            self.spec_pos_x(idx) % self.spec_tile().width as int == 0,
            self.spec_pos_y(idx) % self.spec_tile().height as int == 0,
            0 <= idx % self.spec_num_x() < self.spec_num_x(),
            0 <= idx / self.spec_num_x() < self.spec_num_y(),
    {
        let w = self.spec_origin().width as int;
        let h = self.spec_origin().height as int;
        let tw = self.spec_tile().width as int;
        let th = self.spec_tile().height as int;
        let nx = self.spec_num_x();
        let ny = self.spec_num_y();
        lemma_div_quotient_bounds(w, tw);
        lemma_div_quotient_bounds(h, th);
        let cx = idx % nx;
        let cy = idx / nx;
        assert(0 <= cx < nx && 0 <= cy && idx == nx * cy + cx) by (nonlinear_arith)
            requires
                nx >= 1,
                0 <= idx,
                cx == idx % nx,
                cy == idx / nx,
        ;
        assert(cy < ny) by (nonlinear_arith)
            requires
                nx >= 1,
                0 <= cx < nx,
                idx == nx * cy + cx,
                idx < nx * ny,
                0 <= cy,
        ;
        assert(cx * tw + tw <= nx * tw && 0 <= cx * tw) by (nonlinear_arith)
            requires
                0 <= cx < nx,
                tw > 0,
        ;
        assert(nx * tw == w) by (nonlinear_arith)
            requires
                tw > 0,
                w >= 0,
                w % tw == 0,
                nx == w / tw,
        ;
        assert(cy * th + th <= ny * th && 0 <= cy * th) by (nonlinear_arith)
            requires
                0 <= cy < ny,
                th > 0,
        ;
        assert(ny * th == h) by (nonlinear_arith)
            requires
                th > 0,
                h >= 0,
                h % th == 0,
                ny == h / th,
        ;
        assert((cx * tw) % tw == 0) by (nonlinear_arith)
            requires
                tw > 0,
        ;
        assert((cy * th) % th == 0) by (nonlinear_arith)
            requires
                th > 0,
        ;
    }
}

/// For positive `d` dividing nonnegative `n`, the quotient is at least 1 when
/// `n` is positive, and never exceeds `n`.
proof fn lemma_div_quotient_bounds(n: int, d: int)
    requires
        0 < n,
        0 < d,
        n % d == 0,
    ensures
        1 <= n / d <= n,
{
    assert(1 <= n / d <= n) by (nonlinear_arith)
        requires
            0 < n,
            0 < d,
            n % d == 0,
    ;
}

} // verus!
