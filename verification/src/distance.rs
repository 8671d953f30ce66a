//! The tile similarity function: per-tile reference signatures derived from
//! the origin image, and the integer distance between a signature and a
//! candidate image's own summary.

use vstd::prelude::*;

use crate::image::SizedImage;
use crate::size::Grid;

verus! {

/// A scalar distance between an origin tile and a candidate image.
pub type Distance = u64;

/// Distance between a tile signature and a candidate mean: the absolute
/// difference of the two scaled grayscale values.
pub open spec fn spec_distance(sig: u64, mean: int) -> u64 {
    if sig as int >= mean {
        (sig as int - mean) as u64
    } else {
        (mean - sig as int) as u64
    }
}

/// The distance of every tile signature to one candidate mean.
pub open spec fn spec_distance_vec(cache: Seq<u64>, mean: int) -> Seq<u64> {
    Seq::new(cache.len(), |i: int| spec_distance(cache[i], mean))
}

/// A distance function: derives per-tile signatures from the origin image
/// once, then scores any candidate against every tile.
pub trait DistanceFunc: Sized {
    /// When an origin image and grid are acceptable to this function.
    spec fn origin_ok(origin: &SizedImage, grid: Grid) -> bool;

    /// When a candidate image is acceptable to this function.
    spec fn piece_ok(&self, piece: &SizedImage) -> bool;

    fn from_origin(origin: &SizedImage, grid: Grid) -> Self
        requires
            Self::origin_ok(origin, grid),
    ;

    fn distance_vec(&self, piece: &SizedImage) -> Vec<Distance>
        requires
            self.piece_ok(piece),
    ;
}

/// The mean-grayscale similarity model: each origin tile's signature is its
/// mean grayscale (scaled by 10000), and a candidate's distance to a tile is
/// the absolute difference between the tile signature and the candidate's
/// own mean grayscale.
#[derive(Debug)]
pub struct MeanGrayscale {
    cache: Vec<u64>,
}

impl View for MeanGrayscale {
    type V = Seq<u64>;

    closed spec fn view(&self) -> Seq<u64> {
        self.cache@
    }
}

impl MeanGrayscale {
    /// Splits the origin into tiles in row-major order and caches each
    /// tile's mean grayscale.
    pub fn from_origin(origin: &SizedImage, grid: Grid) -> (r: MeanGrayscale)
        requires
            grid.wf(),
            origin@.wf(),
            origin@.width == grid.spec_origin().width,
            origin@.height == grid.spec_origin().height,
            grid.spec_num_tiles() <= usize::MAX,
        ensures
            r@.len() == grid.spec_num_tiles(),
            forall|i: int|
                0 <= i < r@.len() ==> #[trigger] r@[i] == origin@.crop(
                    grid.spec_pos_x(i),
                    grid.spec_pos_y(i),
                    grid.spec_tile().width as int,
                    grid.spec_tile().height as int,
                ).mean_gray_scaled() && r@[i] <= 2550000,
    {
        let n64: u64 = grid.num_tiles();
        let n: usize = n64 as usize;
        let tile = grid.tile();
        proof {
            assert((tile.width as int) * (tile.height as int) > 0) by (nonlinear_arith)
                requires
                    tile.width >= 1,
                    tile.height >= 1,
            ;
        }
        let mut cache: Vec<u64> = Vec::with_capacity(n);
        let mut idx: usize = 0;
        while idx < n
            invariant
                grid.wf(),
                origin@.wf(),
                origin@.width == grid.spec_origin().width,
                origin@.height == grid.spec_origin().height,
                n == grid.spec_num_tiles(),
                tile == grid.spec_tile(),
                (tile.width as int) * (tile.height as int) > 0,
                idx <= n,
                cache@.len() == idx,
                forall|i: int|
                    0 <= i < idx ==> #[trigger] cache@[i] == origin@.crop(
                        grid.spec_pos_x(i),
                        grid.spec_pos_y(i),
                        grid.spec_tile().width as int,
                        grid.spec_tile().height as int,
                    ).mean_gray_scaled() && cache@[i] <= 2550000,
            decreases n - idx,
        {
            let pos = grid.index_to_pos(idx as u64);
            proof {
                grid.lemma_pos_in_bounds(idx as int);
            }
            let region = origin.crop(pos, tile);
            let mean = region.mean_grayscale();
            cache.push(mean);
            idx += 1;
        }
        MeanGrayscale { cache }
    }

    /// Scores a candidate against every tile signature: the distance to tile
    /// `i` is the absolute difference between signature `i` and the
    /// candidate's mean grayscale. A pure function of the pixel contents.
    pub fn distance_vec(&self, piece: &SizedImage) -> (r: Vec<Distance>)
        requires
            piece@.wf(),
            piece@.pixel_count() > 0,
        ensures
            r@ == spec_distance_vec(self@, piece@.mean_gray_scaled()),
            r@.len() == self@.len(),
    {
        let mean = piece.mean_grayscale();
        let mut r: Vec<u64> = Vec::with_capacity(self.cache.len());
        let mut i: usize = 0;
        while i < self.cache.len()
            invariant
                mean == piece@.mean_gray_scaled(),
                i <= self@.len(),
                self@.len() == self.cache@.len(),
                r@.len() == i,
                forall|j: int|
                    0 <= j < i ==> #[trigger] r@[j] == spec_distance(
                        self@[j],
                        piece@.mean_gray_scaled(),
                    ),
            decreases self@.len() - i,
        {
            let sig = self.cache[i];
            let d: u64 = if sig >= mean {
                sig - mean
            } else {
                mean - sig
            };
            r.push(d);
            i += 1;
        }
        proof {
            assert(r@ =~= spec_distance_vec(self@, piece@.mean_gray_scaled()));
        }
        r
    }
}

impl DistanceFunc for MeanGrayscale {
    open spec fn origin_ok(origin: &SizedImage, grid: Grid) -> bool {
        &&& grid.wf()
        &&& origin@.wf()
        &&& origin@.width == grid.spec_origin().width
        &&& origin@.height == grid.spec_origin().height
        &&& grid.spec_num_tiles() <= usize::MAX
    }

    open spec fn piece_ok(&self, piece: &SizedImage) -> bool {
        &&& piece@.wf()
        &&& piece@.pixel_count() > 0
    }

    fn from_origin(origin: &SizedImage, grid: Grid) -> Self {
        MeanGrayscale::from_origin(origin, grid)
    }

    fn distance_vec(&self, piece: &SizedImage) -> Vec<Distance> {
        MeanGrayscale::distance_vec(self, piece)
    }
}

} // verus!
