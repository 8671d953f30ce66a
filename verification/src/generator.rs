//! The mosaic generator: orchestrates the size model, the similarity
//! function and the assignment table into a sequence of immutable composite
//! snapshots as posts are applied.

use vstd::prelude::*;

use crate::distance::{spec_distance_vec, MeanGrayscale};
use crate::image::{ImageModel, SizedImage};
use crate::piece::{
    argmax_first, occupied_posts, slot_dists, spec_gaps, MosaicPiece, MosaicPieceVec, PieceModel,
    SlotModel,
};
use crate::post::{GenericPost, HashtagList, PostModel};
use crate::size::Grid;
use crate::util::{Id, IdGenerator};

verus! {

/// Model of one immutable snapshot of the mosaic.
#[verifier::ext_equal]
pub ghost struct ArtModel {
    pub id: u64,
    pub image: ImageModel,
    pub posts: Seq<PostModel>,
    pub hashtags: Seq<Seq<char>>,
}

/// One immutable snapshot: every successful assignment produces a new one,
/// and an earlier snapshot stays valid for any reader still holding it.
#[derive(Debug)]
pub struct MosaicArt {
    /// Distinguishes snapshots, so a reader can tell whether anything
    /// changed since the snapshot it holds.
    pub id: Id,
    pub image: SizedImage,
    pub posts: Vec<GenericPost>,
    pub hashtags: HashtagList,
}

impl View for MosaicArt {
    type V = ArtModel;

    open spec fn view(&self) -> ArtModel {
        ArtModel {
            id: self.id.spec_raw(),
            image: self.image@,
            posts: self.posts@.map_values(|p: GenericPost| p@),
            hashtags: self.hashtags@,
        }
    }
}

impl Clone for MosaicArt {
    /// Cloning preserves the snapshot model exactly.
    fn clone(&self) -> (r: Self)
        ensures
            r@ == self@,
    {
        let mut posts: Vec<GenericPost> = Vec::with_capacity(self.posts.len());
        let mut i: usize = 0;
        while i < self.posts.len()
            invariant
                i <= self.posts@.len(),
                posts@.len() == i,
                forall|j: int| 0 <= j < i ==> (#[trigger] posts@[j])@ == self.posts@[j]@,
            decreases self.posts@.len() - i,
        {
            posts.push(self.posts[i].clone());
            i += 1;
        }
        let r = MosaicArt {
            id: self.id,
            image: self.image.clone(),
            posts,
            hashtags: self.hashtags.clone(),
        };
        proof {
            assert(r@.posts =~= self@.posts);
            assert(r@ =~= self@);
        }
        r
    }
}

/// Model of the generator's whole state.
#[verifier::ext_equal]
pub ghost struct GenModel {
    pub grid: Grid,
    pub cache: Seq<u64>,
    pub next_id: u64,
    pub slots: Seq<SlotModel>,
    pub img: ImageModel,
    pub hashtags: Seq<Seq<char>>,
}

impl GenModel {
    pub open spec fn wf(self) -> bool {
        &&& self.grid.wf()
        &&& self.slots.len() == self.grid.spec_num_tiles()
        &&& self.cache.len() == self.grid.spec_num_tiles()
        &&& self.img.wf()
        &&& self.img.width == self.grid.spec_origin().width
        &&& self.img.height == self.grid.spec_origin().height
    }

    /// Whether every non-transparent tile has been assigned at least once:
    /// no slot still holds the maximal sentinel distance.
    pub open spec fn spec_has_enough(self) -> bool {
        !(exists|i: int|
            0 <= i < self.slots.len() && (#[trigger] self.slots[i]).distance == u64::MAX)
    }
}

/// The generator's transition for one applied post: score the candidate,
/// let the greedy rule pick a slot, store the candidate there, paint it at
/// that slot's position, and advance the snapshot counter.
pub open spec fn gen_step(g: GenModel, post: PostModel) -> GenModel {
    let mean = post.image.mean_gray_scaled();
    let dv = spec_distance_vec(g.cache, mean);
    let idx = argmax_first(spec_gaps(slot_dists(g.slots), dv));
    GenModel {
        grid: g.grid,
        cache: g.cache,
        next_id: (g.next_id + 1) as u64,
        slots: g.slots.update(
            idx,
            SlotModel { distance: dv[idx], occupant: Some(PieceModel { post, distance_vec: dv }) },
        ),
        img: g.img.paint(post.image, g.grid.spec_pos_x(idx), g.grid.spec_pos_y(idx)),
        hashtags: g.hashtags,
    }
}

/// The generator's state after applying the same post `n` times in a row.
pub open spec fn gen_steps(g: GenModel, post: PostModel, n: nat) -> GenModel
    decreases n,
{
    if n == 0 {
        g
    } else {
        gen_step(gen_steps(g, post, (n - 1) as nat), post)
    }
}

/// The snapshot that applying `post` to generator state `g` returns.
pub open spec fn art_after(g: GenModel, post: PostModel) -> ArtModel {
    ArtModel {
        id: g.next_id,
        image: gen_step(g, post).img,
        posts: occupied_posts(gen_step(g, post).slots),
        hashtags: g.hashtags,
    }
}

/// The online mosaic builder: owns the composite painted so far and the
/// assignment table, and turns each incoming post into a new snapshot.
#[derive(Debug)]
pub struct MosaicArtGenerator {
    hashtags: HashtagList,
    distance_f: MeanGrayscale,
    id_gen: IdGenerator,
    current_img: SizedImage,
    pieces: MosaicPieceVec,
}

impl View for MosaicArtGenerator {
    type V = GenModel;

    closed spec fn view(&self) -> GenModel {
        GenModel {
            grid: self.pieces.spec_grid(),
            cache: self.distance_f@,
            next_id: self.id_gen.spec_next(),
            slots: self.pieces@,
            img: self.current_img@,
            hashtags: self.hashtags@,
        }
    }
}

impl MosaicArtGenerator {
    pub open spec fn wf(&self) -> bool {
        self@.wf()
    }

    /// Builds a generator over a blank (fully transparent) composite and
    /// returns it with the initial snapshot: id 0, no occupants.
    pub fn new(origin: SizedImage, grid: Grid, hashtags: HashtagList) -> (r: (
        MosaicArtGenerator,
        MosaicArt,
    ))
        requires
            grid.wf(),
            origin@.wf(),
            origin@.width == grid.spec_origin().width,
            origin@.height == grid.spec_origin().height,
            grid.spec_num_tiles() <= usize::MAX,
        ensures
            r.0.wf(),
            r.0@.grid == grid,
            r.0@.next_id == 1,
            r.0@.hashtags == hashtags@,
            r.0@.cache.len() == grid.spec_num_tiles(),
            forall|i: int|
                0 <= i < r.0@.cache.len() ==> #[trigger] r.0@.cache[i] == origin@.crop(
                    grid.spec_pos_x(i),
                    grid.spec_pos_y(i),
                    grid.spec_tile().width as int,
                    grid.spec_tile().height as int,
                ).mean_gray_scaled(),
            r.0@.slots.len() == grid.spec_num_tiles(),
            forall|i: int|
                0 <= i < r.0@.slots.len() ==> (#[trigger] r.0@.slots[i]).occupant is None,
            forall|i: int|
                0 <= i < r.0@.slots.len() ==> (#[trigger] r.0@.slots[i]).distance == (
                if origin@.crop(
                    grid.spec_pos_x(i),
                    grid.spec_pos_y(i),
                    grid.spec_tile().width as int,
                    grid.spec_tile().height as int,
                ).fully_transparent() {
                    0u64
                } else {
                    u64::MAX
                }),
            r.0@.img.width == grid.spec_origin().width,
            r.0@.img.height == grid.spec_origin().height,
            r.0@.img.fully_transparent(),
            forall|i: int| 0 <= i < r.0@.img.pixels.len() ==> r.0@.img.pixels[i] == 0u8,
            r.1@.id == 0,
            r.1@.image == r.0@.img,
            r.1@.posts == Seq::<PostModel>::empty(),
            r.1@.hashtags == hashtags@,
    {
        let init_image = SizedImage::clear_image(grid.origin());
        let pieces = MosaicPieceVec::with_origin_image(&origin, grid);
        let distance_f = MeanGrayscale::from_origin(&origin, grid);
        let mut id_gen = IdGenerator::new();
        let art_id = id_gen.next_id();
        let init_art = MosaicArt {
            id: art_id,
            image: init_image.clone(),
            posts: Vec::new(),
            hashtags: hashtags.clone(),
        };
        let generator = MosaicArtGenerator { hashtags, distance_f, id_gen, current_img: init_image, pieces };
        proof {
            assert(init_art@.posts =~= Seq::<PostModel>::empty());
        }
        (generator, init_art)
    }

    pub fn hashtags(&self) -> (r: HashtagList)
        ensures
            r@ == self@.hashtags,
    {
        self.hashtags.clone()
    }

    pub fn grid(&self) -> (g: Grid)
        ensures
            g == self@.grid,
    {
        self.pieces.grid()
    }

    /// The id the next snapshot will carry.
    pub fn next_snapshot_id(&self) -> (n: u64)
        ensures
            n == self@.next_id,
    {
        self.id_gen.peek_next()
    }

    /// Applies one post: scores it against every tile, replaces the slot
    /// the greedy rule chooses, paints the candidate there, and returns the
    /// new snapshot. Never fails; a post whose image does not have the tile
    /// dimensions is a caller precondition violation.
    pub fn apply_post(&mut self, post: GenericPost) -> (r: MosaicArt)
        requires
            old(self).wf(),
            post@.image.wf(),
            post@.image.width == old(self)@.grid.spec_tile().width,
            post@.image.height == old(self)@.grid.spec_tile().height,
            old(self)@.next_id < u64::MAX,
        ensures
            final(self).wf(),
            final(self)@ == gen_step(old(self)@, post@),
            r@ == art_after(old(self)@, post@),
    {
        proof {
            let tile = old(self)@.grid.spec_tile();
            assert((tile.width as int) * (tile.height as int) > 0) by (nonlinear_arith)
                requires
                    tile.width >= 1,
                    tile.height >= 1,
            ;
        }
        let dv = self.distance_f.distance_vec(post.image());
        let piece = MosaicPiece { post: post.clone(), distance_vec: dv };
        let ghost gaps = spec_gaps(slot_dists(old(self)@.slots), piece.distance_vec@);
        proof {
            self.pieces.spec_grid().lemma_num_tiles_pos();
            crate::piece::lemma_argmax_first(gaps);
        }
        let (pos, _evicted) = self.pieces.replace_piece(piece);
        proof {
            old(self)@.grid.lemma_pos_in_bounds(argmax_first(gaps));
        }
        self.current_img.overpaint_by(post.image(), pos);
        let id = self.id_gen.next_id();
        let image = self.current_img.clone();
        let posts = self.pieces.occupant_posts();
        let hashtags = self.hashtags.clone();
        let art = MosaicArt { id, image, posts, hashtags };
        proof {
            assert(self@ =~= gen_step(old(self)@, post@));
            assert(art@ =~= art_after(old(self)@, post@));
        }
        art
    }

    /// Whether every non-transparent tile has received at least one
    /// candidate.
    pub fn has_enough_pieces(&self) -> (b: bool)
        ensures
            b <==> self@.spec_has_enough(),
    {
        !self.pieces.has_unfilled_slots()
    }
}

} // verus!
