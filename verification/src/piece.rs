//! The tile assignment table: per tile slot, the best distance achieved so
//! far and the current occupant, plus the greedy online rule that decides
//! which slot an incoming candidate replaces.
//!
//! The rule maximizes the improvement ("gap") a candidate offers over the
//! current occupants; ties are broken towards the lowest tile index.

use vstd::prelude::*;
use vstd::pervasive::VecAdditionalExecFns;

use crate::image::SizedImage;
use crate::post::{GenericPost, PostModel};
use crate::size::{Grid, Position};

verus! {

/// The improvement a candidate at distance `cand` offers over a slot whose
/// best distance is `curr`: zero when the candidate would not improve it.
pub open spec fn spec_gap(curr: u64, cand: u64) -> u64 {
    if curr < cand {
        0u64
    } else {
        (curr - cand) as u64
    }
}

/// The gap of every slot for one candidate's distance vector.
pub open spec fn spec_gaps(dists: Seq<u64>, dv: Seq<u64>) -> Seq<u64> {
    Seq::new(dists.len(), |i: int| spec_gap(dists[i], dv[i]))
}

/// Index of the first occurrence of the maximum of a non-empty sequence:
/// the slot the greedy rule chooses, when applied to the gaps.
pub open spec fn argmax_first(s: Seq<u64>) -> int
    recommends
        s.len() > 0,
    decreases s.len(),
{
    if s.len() <= 1 {
        0
    } else {
        let r = argmax_first(s.drop_last());
        if s.last() > s[r] {
            s.len() - 1
        } else {
            r
        }
    }
}

/// `argmax_first` is in range, maximal, and strictly above every earlier
/// element (so it really is the first occurrence of the maximum).
pub proof fn lemma_argmax_first(s: Seq<u64>)
    requires
        s.len() > 0,
    ensures
        0 <= argmax_first(s) < s.len(),
        forall|j: int| 0 <= j < s.len() ==> #[trigger] s[j] <= s[argmax_first(s)],
        forall|j: int| 0 <= j < argmax_first(s) ==> #[trigger] s[j] < s[argmax_first(s)],
    decreases s.len(),
{
    if s.len() > 1 {
        let t = s.drop_last();
        lemma_argmax_first(t);
        assert(forall|j: int| 0 <= j < t.len() ==> t[j] == s[j]);
    }
}

/// Model of one candidate bound to its distance vector.
#[verifier::ext_equal]
pub ghost struct PieceModel {
    pub post: PostModel,
    pub distance_vec: Seq<u64>,
}

/// Model of one tile slot: best distance so far and current occupant.
#[verifier::ext_equal]
pub ghost struct SlotModel {
    pub distance: u64,
    pub occupant: Option<PieceModel>,
}

/// A candidate post bound to its distance vector: `distance_vec[i]` is the
/// distance between the candidate and origin tile `i`.
#[derive(Debug)]
pub struct MosaicPiece {
    pub post: GenericPost,
    pub distance_vec: Vec<u64>,
}

impl View for MosaicPiece {
    type V = PieceModel;

    open spec fn view(&self) -> PieceModel {
        PieceModel { post: self.post@, distance_vec: self.distance_vec@ }
    }
}

impl Clone for MosaicPiece {
    fn clone(&self) -> (r: Self)
        ensures
            r@ == self@,
    {
        let mut dv: Vec<u64> = Vec::with_capacity(self.distance_vec.len());
        let mut i: usize = 0;
        while i < self.distance_vec.len()
            invariant
                i <= self.distance_vec@.len(),
                dv@ =~= self.distance_vec@.take(i as int),
            decreases self.distance_vec@.len() - i,
        {
            dv.push(self.distance_vec[i]);
            i += 1;
        }
        proof {
            assert(dv@ =~= self.distance_vec@);
        }
        let r = MosaicPiece { post: self.post.clone(), distance_vec: dv };
        proof {
            assert(r@ =~= self@);
        }
        r
    }
}

/// The sequence of occupied pieces of a slot sequence, in slot order.
pub open spec fn occupied_pieces(slots: Seq<SlotModel>) -> Seq<PieceModel>
    decreases slots.len(),
{
    if slots.len() == 0 {
        Seq::empty()
    } else {
        occupied_pieces(slots.drop_last()) + (match slots.last().occupant {
            Some(p) => seq![p],
            None => Seq::empty(),
        })
    }
}

/// The posts of the occupied pieces of a slot sequence, in slot order.
pub open spec fn occupied_posts(slots: Seq<SlotModel>) -> Seq<PostModel> {
    occupied_pieces(slots).map_values(|p: PieceModel| p.post)
}

/// The best distances of a slot sequence, in slot order.
pub open spec fn slot_dists(slots: Seq<SlotModel>) -> Seq<u64> {
    slots.map_values(|s: SlotModel| s.distance)
}

/// The tile assignment table: one slot per tile of the grid.
#[derive(Debug)]
pub struct MosaicPieceVec {
    pieces: Vec<(u64, Option<MosaicPiece>)>,
    grid: Grid,
}

impl View for MosaicPieceVec {
    type V = Seq<SlotModel>;

    closed spec fn view(&self) -> Seq<SlotModel> {
        self.pieces@.map_values(
            |s: (u64, Option<MosaicPiece>)|
                SlotModel {
                    distance: s.0,
                    occupant: match s.1 {
                        Some(p) => Some(p@),
                        None => None,
                    },
                },
        )
    }
}

impl MosaicPieceVec {
    pub closed spec fn spec_grid(&self) -> Grid {
        self.grid
    }

    /// Best distances of all slots, in slot order.
    pub open spec fn dists(&self) -> Seq<u64> {
        slot_dists(self@)
    }

    pub open spec fn wf(&self) -> bool {
        &&& self.spec_grid().wf()
        &&& self@.len() == self.spec_grid().spec_num_tiles()
    }

    pub fn grid(&self) -> (g: Grid)
        ensures
            g == self.spec_grid(),
    {
        self.grid
    }

    pub fn len(&self) -> (n: usize)
        ensures
            n == self@.len(),
    {
        self.pieces.len()
    }

    /// Best distance currently recorded for slot `i`.
    pub fn distance_at(&self, i: usize) -> (d: u64)
        requires
            i < self@.len(),
        ensures
            d == self@[i as int].distance,
    {
        self.pieces[i].0
    }

    /// Whether slot `i` currently holds an occupant.
    pub fn is_occupied(&self, i: usize) -> (b: bool)
        requires
            i < self@.len(),
        ensures
            b <==> self@[i as int].occupant is Some,
    {
        self.pieces[i].1.is_some()
    }

    /// Initializes one empty slot per tile of `grid`.
    ///
    /// Every slot starts at the maximal distance with no occupant, except
    /// that a slot whose origin tile is fully transparent (nothing to mosaic
    /// there) starts at the minimal distance, marking it permanently
    /// non-replaceable.
    pub fn with_origin_image(origin: &SizedImage, grid: Grid) -> (r: MosaicPieceVec)
        requires
            grid.wf(),
            origin@.wf(),
            origin@.width == grid.spec_origin().width,
            origin@.height == grid.spec_origin().height,
            grid.spec_num_tiles() <= usize::MAX,
        ensures
            r.wf(),
            r.spec_grid() == grid,
            r@.len() == grid.spec_num_tiles(),
            forall|i: int| 0 <= i < r@.len() ==> (#[trigger] r@[i]).occupant is None,
            forall|i: int|
                0 <= i < r@.len() ==> (#[trigger] r@[i]).distance == (if origin@.crop(
                    grid.spec_pos_x(i),
                    grid.spec_pos_y(i),
                    grid.spec_tile().width as int,
                    grid.spec_tile().height as int,
                ).fully_transparent() {
                    0u64
                } else {
                    u64::MAX
                }),
    {
        let n64: u64 = grid.num_tiles();
        let n: usize = n64 as usize;
        let tile = grid.tile();
        let mut pieces: Vec<(u64, Option<MosaicPiece>)> = Vec::with_capacity(n);
        let mut idx: usize = 0;
        while idx < n
            invariant
                grid.wf(),
                origin@.wf(),
                origin@.width == grid.spec_origin().width,
                origin@.height == grid.spec_origin().height,
                n == grid.spec_num_tiles(),
                tile == grid.spec_tile(),
                idx <= n,
                pieces@.len() == idx,
                forall|i: int| 0 <= i < idx ==> (#[trigger] pieces@[i]).1 is None,
                forall|i: int|
                    0 <= i < idx ==> (#[trigger] pieces@[i]).0 == (if origin@.crop(
                        grid.spec_pos_x(i),
                        grid.spec_pos_y(i),
                        grid.spec_tile().width as int,
                        grid.spec_tile().height as int,
                    ).fully_transparent() {
                        0u64
                    } else {
                        u64::MAX
                    }),
            decreases n - idx,
        {
            let pos = grid.index_to_pos(idx as u64);
            proof {
                grid.lemma_pos_in_bounds(idx as int);
            }
            let region = origin.crop(pos, tile);
            let dist: u64 = if region.is_fully_transparent() {
                0u64
            } else {
                u64::MAX
            };
            pieces.push((dist, None));
            idx += 1;
        }
        MosaicPieceVec { pieces, grid }
    }

    /// Derives a tile's pixel position from its row-major slot index.
    pub fn index_to_pos(&self, idx: u64) -> (p: Position)
        requires
            self.wf(),
            idx < self@.len(),
        ensures
            p.x == self.spec_grid().spec_pos_x(idx as int),
            p.y == self.spec_grid().spec_pos_y(idx as int),
    {
        self.grid.index_to_pos(idx)
    }

    /// Replaces the slot the greedy rule chooses for `piece`: the slot with
    /// the maximum gap, ties broken towards the lowest index. Stores the
    /// candidate's distance there and returns the slot's pixel position and
    /// former occupant.
    ///
    /// This rule by itself does not keep a post from occupying several slots
    /// when the same post is applied more than once; only the ingestion
    /// filter's deduplication keeps a feed post from being submitted twice.
    pub fn replace_piece(&mut self, piece: MosaicPiece) -> (r: (Position, Option<MosaicPiece>))
        requires
            old(self).wf(),
            piece.distance_vec@.len() == old(self)@.len(),
        ensures
            final(self).wf(),
            final(self).spec_grid() == old(self).spec_grid(),
            ({
                let idx = argmax_first(spec_gaps(old(self).dists(), piece.distance_vec@));
                &&& final(self)@ == old(self)@.update(
                    idx,
                    SlotModel {
                        distance: piece.distance_vec@[idx],
                        occupant: Some(piece@),
                    },
                )
                &&& r.0.x == old(self).spec_grid().spec_pos_x(idx)
                &&& r.0.y == old(self).spec_grid().spec_pos_y(idx)
                &&& r.0.x + old(self).spec_grid().spec_tile().width <= old(
                    self,
                ).spec_grid().spec_origin().width
                &&& r.0.y + old(self).spec_grid().spec_tile().height <= old(
                    self,
                ).spec_grid().spec_origin().height
                &&& r.0.x as int % old(self).spec_grid().spec_tile().width as int == 0
                &&& r.0.y as int % old(self).spec_grid().spec_tile().height as int == 0
                &&& (r.1 is Some <==> old(self)@[idx].occupant is Some)
                &&& (r.1 matches Some(p) ==> old(self)@[idx].occupant == Some(p@))
            }),
    {
        proof {
            old(self).spec_grid().lemma_num_tiles_pos();
        }
        let ghost gaps = spec_gaps(old(self).dists(), piece.distance_vec@);
        let n = self.pieces.len();
        let mut best_idx: usize = 0;
        let mut best_gap: u64 = {
            let d0 = self.pieces[0].0;
            let c0 = piece.distance_vec[0];
            if d0 < c0 {
                0u64
            } else {
                d0 - c0
            }
        };
        proof {
            assert(gaps.len() == n);
            assert(gaps.take(1) =~= seq![gaps[0]]);
            assert(gaps[0] == spec_gap(self@[0].distance, piece.distance_vec@[0]));
            assert(best_gap == gaps[0]);
            assert(argmax_first(gaps.take(1)) == 0);
        }
        let mut i: usize = 1;
        while i < n
            invariant
                self.wf(),
                piece.distance_vec@.len() == self@.len(),
                n == self@.len(),
                gaps == spec_gaps(self.dists(), piece.distance_vec@),
                1 <= i <= n,
                best_idx < i,
                best_idx == argmax_first(gaps.take(i as int)),
                best_gap == gaps[best_idx as int],
            decreases n - i,
        {
            let di = self.pieces[i].0;
            let ci = piece.distance_vec[i];
            let gap_i: u64 = if di < ci {
                0u64
            } else {
                di - ci
            };
            proof {
                assert(gap_i == gaps[i as int]);
                assert(gaps.take(i as int + 1).drop_last() =~= gaps.take(i as int));
                assert(gaps.take(i as int + 1).last() == gaps[i as int]);
                lemma_argmax_first(gaps.take(i as int));
            }
            if gap_i > best_gap {
                best_idx = i;
                best_gap = gap_i;
            }
            i += 1;
        }
        proof {
            assert(gaps.take(n as int) =~= gaps);
            self.grid.lemma_pos_in_bounds(best_idx as int);
        }
        let pos = self.grid.index_to_pos(best_idx as u64);
        let dist_new = piece.distance_vec[best_idx];
        let mut new_slot: (u64, Option<MosaicPiece>) = (dist_new, Some(piece));
        self.pieces.set_and_swap(best_idx, &mut new_slot);
        let (_, evicted) = new_slot;
        proof {
            assert(final(self)@ =~= old(self)@.update(
                best_idx as int,
                SlotModel { distance: dist_new, occupant: final(self)@[best_idx as int].occupant },
            ));
        }
        (pos, evicted)
    }

    /// The current occupants, in slot order (empty slots skipped).
    pub fn iter(&self) -> (r: Vec<MosaicPiece>)
        ensures
            r@.map_values(|p: MosaicPiece| p@) == occupied_pieces(self@),
    {
        let mut r: Vec<MosaicPiece> = Vec::new();
        let mut i: usize = 0;
        while i < self.pieces.len()
            invariant
                i <= self@.len(),
                self@.len() == self.pieces@.len(),
                r@.map_values(|p: MosaicPiece| p@) == occupied_pieces(self@.take(i as int)),
            decreases self@.len() - i,
        {
            let ghost prefix = self@.take(i as int);
            match &self.pieces[i].1 {
                Some(p) => {
                    r.push(p.clone());
                },
                None => {},
            }
            i += 1;
            proof {
                assert(self@.take(i as int).drop_last() =~= prefix);
                assert(self@.take(i as int).last() == self@[i - 1]);
                assert(r@.map_values(|p: MosaicPiece| p@) =~= occupied_pieces(
                    self@.take(i as int),
                ));
            }
        }
        proof {
            assert(self@.take(self@.len() as int) =~= self@);
        }
        r
    }

    /// The posts of the current occupants, in slot order.
    pub fn occupant_posts(&self) -> (r: Vec<GenericPost>)
        ensures
            r@.map_values(|p: GenericPost| p@) == occupied_posts(self@),
    {
        let pieces = self.iter();
        let mut r: Vec<GenericPost> = Vec::with_capacity(pieces.len());
        let mut i: usize = 0;
        while i < pieces.len()
            invariant
                i <= pieces@.len(),
                pieces@.map_values(|p: MosaicPiece| p@) == occupied_pieces(self@),
                r@.len() == i,
                forall|j: int| 0 <= j < i ==> (#[trigger] r@[j])@ == pieces@[j]@.post,
            decreases pieces@.len() - i,
        {
            r.push(pieces[i].post.clone());
            i += 1;
        }
        proof {
            assert(r@.map_values(|p: GenericPost| p@) =~= occupied_posts(self@));
        }
        r
    }

    /// Whether some non-transparent tile has never been assigned: a slot
    /// still at the maximal sentinel distance.
    pub fn has_unfilled_slots(&self) -> (b: bool)
        ensures
            b <==> exists|i: int| 0 <= i < self@.len() && (#[trigger] self@[i]).distance == u64::MAX,
    {
        let mut i: usize = 0;
        while i < self.pieces.len()
            invariant
                i <= self@.len(),
                self@.len() == self.pieces@.len(),
                forall|j: int| 0 <= j < i ==> (#[trigger] self@[j]).distance != u64::MAX,
            decreases self@.len() - i,
        {
            if self.pieces[i].0 == u64::MAX {
                assert(self@[i as int].distance == u64::MAX);
                return true;
            }
            i += 1;
        }
        false
    }
}

/// Monotonic improvement: whenever some slot would strictly improve under
/// the candidate, the chosen slot's stored distance strictly decreases, and
/// the chosen gap is maximal over all slots.
pub proof fn lemma_replace_monotonic(dists: Seq<u64>, dv: Seq<u64>)
    requires
        dists.len() == dv.len(),
        dists.len() > 0,
        exists|j: int| 0 <= j < dv.len() && dv[j] < dists[j],
    ensures
        ({
            let idx = argmax_first(spec_gaps(dists, dv));
            &&& 0 <= idx < dists.len()
            &&& dv[idx] < dists[idx]
            &&& forall|j: int|
                0 <= j < dists.len() ==> spec_gap(dists[j], dv[j]) <= spec_gap(dists[idx], dv[idx])
        }),
{
    let gaps = spec_gaps(dists, dv);
    lemma_argmax_first(gaps);
    let idx = argmax_first(gaps);
    assert(0 <= idx < dists.len());
    let j = choose|j: int| 0 <= j < dv.len() && dv[j] < dists[j];
    assert(gaps[j] == spec_gap(dists[j], dv[j]));
    assert(gaps[j] > 0);
    assert(gaps[idx] >= gaps[j]);
    assert(gaps[idx] == spec_gap(dists[idx], dv[idx]));
    assert(spec_gap(dists[idx], dv[idx]) > 0);
    assert(dv[idx] < dists[idx]);
    assert forall|m: int|
        0 <= m < dists.len() implies spec_gap(dists[m], dv[m]) <= spec_gap(
        dists[idx],
        dv[idx],
    ) by {
        assert(gaps[m] == spec_gap(dists[m], dv[m]));
        assert(gaps[m] <= gaps[idx]);
    }
}

/// Tie-break determinism: of two slots with the same maximal gap, the rule
/// never chooses the higher-indexed one.
pub proof fn lemma_tie_break_lowest(dists: Seq<u64>, dv: Seq<u64>, i: int, k: int)
    requires
        dists.len() == dv.len(),
        0 <= i < k < dists.len(),
        spec_gap(dists[i], dv[i]) == spec_gap(dists[k], dv[k]),
        forall|j: int|
            0 <= j < dists.len() ==> spec_gap(dists[j], dv[j]) <= spec_gap(dists[i], dv[i]),
    ensures
        argmax_first(spec_gaps(dists, dv)) <= i,
        argmax_first(spec_gaps(dists, dv)) != k,
{
    let gaps = spec_gaps(dists, dv);
    lemma_argmax_first(gaps);
    let idx = argmax_first(gaps);
    assert(gaps[i] == spec_gap(dists[i], dv[i]));
    if idx > i {
        assert(gaps[i] < gaps[idx]);
        assert(gaps[idx] == spec_gap(dists[idx], dv[idx]));
        assert(false);
    }
}

/// Transparent-region lock: a slot whose distance is the minimal sentinel
/// offers gap 0, so it is never chosen while any slot offers a positive gap.
pub proof fn lemma_transparent_lock(dists: Seq<u64>, dv: Seq<u64>, k: int)
    requires
        dists.len() == dv.len(),
        0 <= k < dists.len(),
        dists[k] == 0,
        exists|j: int| 0 <= j < dv.len() && dv[j] < dists[j],
    ensures
        argmax_first(spec_gaps(dists, dv)) != k,
{
    let gaps = spec_gaps(dists, dv);
    lemma_replace_monotonic(dists, dv);
    let idx = argmax_first(gaps);
    assert(spec_gap(dists[k], dv[k]) == 0);
    assert(spec_gap(dists[idx], dv[idx]) > 0);
}

} // verus!
