//! The worker's decision core and the registry of running workers.
//!
//! A worker owns one generator and drives it with a live stream of posts.
//! Everything the worker decides — deduplication, the fill boost, applying
//! a post, publishing the newest snapshot, honouring cancellation — lives
//! here as a sequential state machine; the surrounding process plumbing
//! (threads, channels, network) merely feeds it events.

use vstd::prelude::*;

use crate::generator::{gen_step, gen_steps, ArtModel, GenModel, MosaicArt, MosaicArtGenerator};
use crate::piece::occupied_posts;
use crate::post::{BluummPost, GenericPost, InstaPost, PostModel};
use crate::util::{Id, IdGenerator, IdHashMap};

verus! {

/// Extra number of times an incoming post is applied while the mosaic still
/// has unfilled slots: early in a mosaic's life, empty slots should fill
/// faster than the natural feed rate.
pub const FILL_PROCESS_BOOST: usize = 4;

/// How many times one incoming post is applied in state `g`: once normally,
/// plus the fill boost while some slot is still unfilled.
pub open spec fn spec_apply_count(g: GenModel) -> nat {
    if g.spec_has_enough() {
        1
    } else {
        1 + FILL_PROCESS_BOOST as nat
    }
}

/// The generator's state after applying a list of posts, front to back.
pub open spec fn gen_steps_list(g: GenModel, posts: Seq<PostModel>) -> GenModel
    decreases posts.len(),
{
    if posts.len() == 0 {
        g
    } else {
        gen_steps_list(gen_step(g, posts.first()), posts.drop_first())
    }
}

/// Folding one more post at the back equals one step after the fold.
pub proof fn lemma_gen_steps_list_push(g: GenModel, posts: Seq<PostModel>, post: PostModel)
    ensures
        gen_steps_list(g, posts.push(post)) == gen_step(gen_steps_list(g, posts), post),
    decreases posts.len(),
{
    if posts.len() == 0 {
        assert(posts.push(post).first() == post);
        assert(posts.push(post).drop_first() =~= Seq::<PostModel>::empty());
        assert(gen_steps_list(gen_step(g, post), Seq::<PostModel>::empty()) == gen_step(g, post));
        assert(gen_steps_list(g, posts) == g);
    } else {
        assert(posts.push(post).first() == posts.first());
        assert(posts.push(post).drop_first() =~= posts.drop_first().push(post));
        lemma_gen_steps_list_push(gen_step(g, posts.first()), posts.drop_first(), post);
        assert(gen_steps_list(g, posts.push(post)) == gen_steps_list(
            gen_step(g, posts.first()),
            posts.drop_first().push(post),
        ));
        assert(gen_steps_list(g, posts) == gen_steps_list(
            gen_step(g, posts.first()),
            posts.drop_first(),
        ));
    }
}

/// The warm-restart selection: direct-submission posts first, then feed
/// posts, truncated to the number of tiles.
pub open spec fn init_selection(
    bluumm: Seq<PostModel>,
    insta: Seq<PostModel>,
    limit: int,
) -> Seq<PostModel> {
    if limit < (bluumm + insta).len() {
        (bluumm + insta).take(limit)
    } else {
        bluumm + insta
    }
}

/// The sequential decision core of one worker: a generator, the latest
/// published snapshot, and the cancellation flag.
///
/// The surrounding execution context calls [`WorkerCore::handle_post`] for
/// each event of the merged post stream and [`WorkerCore::handle_cancel`]
/// when the single-use cancellation signal fires; once cancelled, no
/// further post is ever applied.
#[derive(Debug)]
pub struct WorkerCore {
    generator: MosaicArtGenerator,
    latest: MosaicArt,
    cancelled: bool,
}

impl WorkerCore {
    pub closed spec fn gen(&self) -> GenModel {
        self.generator@
    }

    pub closed spec fn latest_art(&self) -> ArtModel {
        self.latest@
    }

    pub closed spec fn is_cancelled(&self) -> bool {
        self.cancelled
    }

    pub open spec fn wf(&self) -> bool {
        self.gen().wf()
    }

    /// Wraps a freshly built generator and its initial snapshot.
    pub fn new(generator: MosaicArtGenerator, initial_art: MosaicArt) -> (r: WorkerCore)
        requires
            generator.wf(),
        ensures
            r.wf(),
            r.gen() == generator@,
            r.latest_art() == initial_art@,
            !r.is_cancelled(),
    {
        WorkerCore { generator, latest: initial_art, cancelled: false }
    }

    /// The latest published snapshot. Always succeeds, cancelled or not.
    pub fn get_art(&self) -> (r: MosaicArt)
        ensures
            r@ == self.latest_art(),
    {
        self.latest.clone()
    }

    /// The id the next snapshot will carry; a caller can check it is far
    /// enough from wrapping before handing the worker more posts.
    pub fn next_snapshot_id(&self) -> (n: u64)
        ensures
            n == self.gen().next_id,
    {
        self.generator.next_snapshot_id()
    }

    /// Whether every non-transparent tile has received a candidate.
    pub fn has_enough_pieces(&self) -> (b: bool)
        ensures
            b <==> self.gen().spec_has_enough(),
    {
        self.generator.has_enough_pieces()
    }

    /// Receives the single-use cancellation signal: from here on the worker
    /// applies no further posts. The latest snapshot stays readable.
    pub fn handle_cancel(&mut self)
        ensures
            final(self).is_cancelled(),
            final(self).gen() == old(self).gen(),
            final(self).latest_art() == old(self).latest_art(),
    {
        self.cancelled = true;
    }

    /// Handles one arriving post.
    ///
    /// A cancelled worker ignores it. A feed-sourced post that the
    /// persistence collaborator has already seen is dropped (deduplication);
    /// direct-submission posts are never deduplicated. Otherwise the post is
    /// applied — several times while slots are still unfilled — and the
    /// newest snapshot replaces the published one.
    pub fn handle_post(&mut self, post: GenericPost, already_seen: bool) -> (applied: bool)
        requires
            old(self).wf(),
            post@.image.wf(),
            post@.image.width == old(self).gen().grid.spec_tile().width,
            post@.image.height == old(self).gen().grid.spec_tile().height,
            old(self).gen().next_id + 5 <= u64::MAX,
        ensures
            final(self).wf(),
            final(self).is_cancelled() == old(self).is_cancelled(),
            old(self).is_cancelled() ==> {
                &&& !applied
                &&& final(self).gen() == old(self).gen()
                &&& final(self).latest_art() == old(self).latest_art()
            },
            !old(self).is_cancelled() && already_seen && post@.is_insta ==> {
                &&& !applied
                &&& final(self).gen() == old(self).gen()
                &&& final(self).latest_art() == old(self).latest_art()
            },
            !old(self).is_cancelled() && !(already_seen && post@.is_insta) ==> {
                &&& applied
                &&& final(self).gen() == gen_steps(
                    old(self).gen(),
                    post@,
                    spec_apply_count(old(self).gen()),
                )
                &&& final(self).latest_art() == (ArtModel {
                    id: (final(self).gen().next_id - 1) as u64,
                    image: final(self).gen().img,
                    posts: occupied_posts(final(self).gen().slots),
                    hashtags: old(self).gen().hashtags,
                })
            },
    {
        if self.cancelled {
            return false;
        }
        let dedup_hit = already_seen && match &post {
            GenericPost::InstaPost(_) => true,
            GenericPost::BluummPost(_) => false,
        };
        if dedup_hit {
            return false;
        }
        let boost: usize = if self.generator.has_enough_pieces() {
            0
        } else {
            FILL_PROCESS_BOOST
        };
        let ghost g0 = old(self).gen();
        let mut k: usize = 0;
        while k < boost
            invariant
                boost <= 4,
                k <= boost,
                self.generator.wf(),
                self.generator@ == gen_steps(g0, post@, k as nat),
                self.generator@.grid == g0.grid,
                self.generator@.next_id == g0.next_id + k,
                g0.next_id + 5 <= u64::MAX,
                post@.image.wf(),
                post@.image.width == g0.grid.spec_tile().width,
                post@.image.height == g0.grid.spec_tile().height,
                self.cancelled == old(self).cancelled,
                self.latest@ == old(self).latest@,
                self.generator@.hashtags == g0.hashtags,
            decreases boost - k,
        {
            let _ = self.generator.apply_post(post.clone());
            k += 1;
        }
        let ghost g_mid = self.generator@;
        let art = self.generator.apply_post(post);
        self.latest = art;
        proof {
            assert(g_mid.next_id == g0.next_id + boost);
            assert(g_mid.next_id < u64::MAX);
            let n = spec_apply_count(g0);
            assert(n == boost + 1);
            assert(gen_steps(g0, post@, n) == gen_step(gen_steps(g0, post@, (n - 1) as nat), post@));
            assert(gen_steps(g0, post@, (n - 1) as nat) == gen_steps(g0, post@, boost as nat));
            assert(self.generator@ == gen_steps(g0, post@, n));
            assert(self.latest@ =~= (ArtModel {
                id: (self.generator@.next_id - 1) as u64,
                image: self.generator@.img,
                posts: occupied_posts(self.generator@.slots),
                hashtags: g0.hashtags,
            }));
        }
        true
    }

    /// Applies the warm-restart posts found by the persistence collaborator
    /// at start: direct-submission posts take priority over feed posts, and
    /// at most one post per tile is taken. The published snapshot is not
    /// advanced; the live stream will do that.
    pub fn apply_initial_posts(&mut self, bluumm: Vec<BluummPost>, insta: Vec<InstaPost>)
        requires
            old(self).wf(),
            forall|i: int|
                0 <= i < bluumm@.len() ==> (#[trigger] bluumm@[i])@.image.wf() && bluumm@[i]@.image.width
                    == old(self).gen().grid.spec_tile().width && bluumm@[i]@.image.height == old(
                    self,
                ).gen().grid.spec_tile().height,
            forall|i: int|
                0 <= i < insta@.len() ==> (#[trigger] insta@[i])@.image.wf() && insta@[i]@.image.width
                    == old(self).gen().grid.spec_tile().width && insta@[i]@.image.height == old(
                    self,
                ).gen().grid.spec_tile().height,
            old(self).gen().next_id + bluumm@.len() + insta@.len() <= u64::MAX,
        ensures
            final(self).wf(),
            final(self).gen() == gen_steps_list(
                old(self).gen(),
                init_selection(
                    bluumm@.map_values(|p: BluummPost| p@),
                    insta@.map_values(|p: InstaPost| p@),
                    old(self).gen().grid.spec_num_tiles(),
                ),
            ),
            final(self).latest_art() == old(self).latest_art(),
            final(self).is_cancelled() == old(self).is_cancelled(),
    {
        let ghost g0 = old(self).gen();
        let ghost bl = bluumm@.map_values(|p: BluummPost| p@);
        let ghost ins = insta@.map_values(|p: InstaPost| p@);
        let limit: u64 = self.generator.grid().num_tiles();
        let ghost selection = init_selection(bl, ins, g0.grid.spec_num_tiles());
        proof {
            assert(selection.len() <= bl.len() + ins.len());
        }
        let mut applied: u64 = 0;
        let mut bi: usize = 0;
        while bi < bluumm.len() && applied < limit
            invariant
                self.generator.wf(),
                bl == bluumm@.map_values(|p: BluummPost| p@),
                ins == insta@.map_values(|p: InstaPost| p@),
                limit == g0.grid.spec_num_tiles(),
                selection == init_selection(bl, ins, limit as int),
                bi <= bluumm@.len(),
                applied == bi,
                applied <= limit,
                self.generator@ == gen_steps_list(g0, bl.take(bi as int)),
                self.generator@.grid == g0.grid,
                self.generator@.next_id == g0.next_id + applied,
                g0.next_id + bl.len() + ins.len() <= u64::MAX,
                forall|i: int|
                    0 <= i < bl.len() ==> (#[trigger] bl[i]).image.wf() && bl[i].image.width
                        == g0.grid.spec_tile().width && bl[i].image.height
                        == g0.grid.spec_tile().height,
                forall|i: int|
                    0 <= i < ins.len() ==> (#[trigger] ins[i]).image.wf() && ins[i].image.width
                        == g0.grid.spec_tile().width && ins[i].image.height
                        == g0.grid.spec_tile().height,
                self.cancelled == old(self).cancelled,
                self.latest@ == old(self).latest@,
            decreases bluumm@.len() - bi,
        {
            let p = bluumm[bi].clone();
            proof {
                assert(bl.take(bi as int).push(bl[bi as int]) =~= bl.take(bi as int + 1));
                lemma_gen_steps_list_push(g0, bl.take(bi as int), bl[bi as int]);
            }
            let _ = self.generator.apply_post(GenericPost::BluummPost(p));
            bi += 1;
            applied += 1;
        }
        let ghost taken_bl = bl.take(bi as int);
        let mut ii: usize = 0;
        while ii < insta.len() && applied < limit
            invariant
                self.generator.wf(),
                bl == bluumm@.map_values(|p: BluummPost| p@),
                ins == insta@.map_values(|p: InstaPost| p@),
                limit == g0.grid.spec_num_tiles(),
                selection == init_selection(bl, ins, limit as int),
                taken_bl == bl.take(bi as int),
                bi <= bl.len(),
                bi == bl.len() || bi == limit,
                ii <= insta@.len(),
                applied == bi + ii,
                applied <= limit,
                self.generator@ == gen_steps_list(g0, taken_bl + ins.take(ii as int)),
                self.generator@.grid == g0.grid,
                self.generator@.next_id == g0.next_id + applied,
                g0.next_id + bl.len() + ins.len() <= u64::MAX,
                forall|i: int|
                    0 <= i < ins.len() ==> (#[trigger] ins[i]).image.wf() && ins[i].image.width
                        == g0.grid.spec_tile().width && ins[i].image.height
                        == g0.grid.spec_tile().height,
                self.cancelled == old(self).cancelled,
                self.latest@ == old(self).latest@,
            decreases insta@.len() - ii,
        {
            let p = insta[ii].clone();
            proof {
                assert((taken_bl + ins.take(ii as int)).push(ins[ii as int]) =~= taken_bl
                    + ins.take(ii as int + 1));
                lemma_gen_steps_list_push(g0, taken_bl + ins.take(ii as int), ins[ii as int]);
            }
            let _ = self.generator.apply_post(GenericPost::InstaPost(p));
            ii += 1;
            applied += 1;
        }
        proof {
            if bi == bl.len() {
                assert(taken_bl =~= bl);
                if ii == ins.len() {
                    assert(selection =~= bl + ins.take(ii as int));
                } else {
                    assert(applied == limit);
                    assert(selection =~= bl + ins.take(ii as int));
                }
            } else {
                assert(bi == limit && ii == 0);
                assert(selection =~= taken_bl + ins.take(0));
            }
            assert(self.generator@ == gen_steps_list(g0, selection));
        }
    }
}

/// The opaque handle under which a running worker is registered.
#[derive(Debug, Clone, Copy, PartialEq, Eq, Structural, Hash)]
pub struct WorkerId(Id);

impl WorkerId {
    pub closed spec fn spec_raw(self) -> u64 {
        self.0.spec_raw()
    }

    pub fn into_raw(&self) -> (r: u64)
        ensures
            r == self.spec_raw(),
    {
        self.0.into_raw()
    }

    pub fn from_raw(id: u64) -> (r: WorkerId)
        ensures
            r.spec_raw() == id,
    {
        WorkerId(Id::from_raw(id))
    }
}

/// The registry's store: maps fresh ids to running workers. Ids count up,
/// so an id is never reused while the registry lives.
#[verifier::reject_recursive_types(V)]
pub struct WorkerContainer<V> {
    container: IdHashMap<V>,
    id_gen: IdGenerator,
}

impl<V> View for WorkerContainer<V> {
    type V = Map<u64, V>;

    closed spec fn view(&self) -> Map<u64, V> {
        self.container@
    }
}

impl<V> WorkerContainer<V> {
    pub closed spec fn spec_next(&self) -> u64 {
        self.id_gen.spec_next()
    }

    /// Every registered id came from the counter, so every key is below it.
    pub open spec fn wf(&self) -> bool {
        forall|k: u64| self@.contains_key(k) ==> k < self.spec_next()
    }

    pub fn new() -> (r: WorkerContainer<V>)
        ensures
            r@ == Map::<u64, V>::empty(),
            r.wf(),
            r.spec_next() == 0,
    {
        WorkerContainer { container: IdHashMap::new(), id_gen: IdGenerator::new() }
    }

    /// Registers a worker under a freshly generated id: the id was never
    /// handed out before, so nothing is displaced.
    pub fn add(&mut self, v: V) -> (id: WorkerId)
        requires
            old(self).wf(),
            old(self).spec_next() < u64::MAX,
        ensures
            final(self).wf(),
            id.spec_raw() == old(self).spec_next(),
            !old(self)@.contains_key(id.spec_raw()),
            final(self)@ == old(self)@.insert(id.spec_raw(), v),
            final(self).spec_next() == old(self).spec_next() + 1,
    {
        let id = self.id_gen.next_id();
        let _ = self.container.insert(id, v);
        proof {
            assert forall|k: u64| self@.contains_key(k) implies k < self.spec_next() by {
                if k != id.spec_raw() {
                    assert(old(self)@.contains_key(k));
                }
            }
        }
        WorkerId(id)
    }

    /// Read-only lookup.
    pub fn get(&self, id: &WorkerId) -> (r: Option<&V>)
        ensures
            r is Some <==> self@.contains_key(id.spec_raw()),
            r matches Some(v) ==> self@.contains_key(id.spec_raw())
                && *v == self@.index(id.spec_raw()),
    {
        self.container.get(&self.worker_key(id))
    }

    /// Removes and returns the worker registered under `id`, if any.
    pub fn take(&mut self, id: &WorkerId) -> (r: Option<V>)
        requires
            old(self).wf(),
        ensures
            final(self).wf(),
            final(self)@ == old(self)@.remove(id.spec_raw()),
            final(self).spec_next() == old(self).spec_next(),
            r is Some <==> old(self)@.contains_key(id.spec_raw()),
            r matches Some(v) ==> old(self)@.contains_key(id.spec_raw())
                && v == old(self)@.index(id.spec_raw()),
    {
        let r = self.container.remove(&self.worker_key(id));
        proof {
            assert forall|k: u64| self@.contains_key(k) implies k < self.spec_next() by {
                assert(old(self)@.contains_key(k));
            }
        }
        r
    }

    fn worker_key(&self, id: &WorkerId) -> (r: Id)
        ensures
            r.spec_raw() == id.spec_raw(),
    {
        id.0
    }
}

/// Cycles through a hashtag list endlessly, for the continuous update
/// stream.
#[derive(Debug)]
pub struct HashtagCycle {
    hashtags: Vec<String>,
    next_idx: usize,
}

impl HashtagCycle {
    pub closed spec fn spec_tags(&self) -> Seq<Seq<char>> {
        self.hashtags@.map_values(|s: String| s@)
    }

    pub closed spec fn spec_idx(&self) -> int {
        self.next_idx as int
    }

    pub open spec fn wf(&self) -> bool {
        self.spec_tags().len() == 0 || self.spec_idx() < self.spec_tags().len()
    }

    pub fn new(hashtags: Vec<String>) -> (r: HashtagCycle)
        ensures
            r.spec_tags() == hashtags@.map_values(|s: String| s@),
            r.spec_idx() == 0,
            r.wf(),
    {
        HashtagCycle { hashtags, next_idx: 0 }
    }

    /// Yields the next hashtag, wrapping around at the end of the list.
    pub fn next(&mut self) -> (r: Option<String>)
        requires
            old(self).wf(),
            old(self).spec_tags().len() > 0,
        ensures
            final(self).wf(),
            final(self).spec_tags() == old(self).spec_tags(),
            r matches Some(h) && h@ == old(self).spec_tags()[old(self).spec_idx()],
            final(self).spec_idx() == (old(self).spec_idx() + 1) % (old(self).spec_tags().len()
                as int),
    {
        proof {
            assert(self.spec_tags().len() == self.hashtags@.len());
        }
        let len_exec: usize = self.hashtags.len();
        assert(self.next_idx < len_exec);
        let h = self.hashtags[self.next_idx].clone();
        let ghost len = self.hashtags@.len() as int;
        let ghost idx0 = self.next_idx as int;
        self.next_idx = self.next_idx + 1;
        if !(self.next_idx < self.hashtags.len()) {
            self.next_idx = 0;
        }
        proof {
            assert((idx0 + 1) % len == (if idx0 + 1 < len {
                idx0 + 1
            } else {
                0int
            })) by (nonlinear_arith)
                requires
                    0 <= idx0 < len,
            ;
        }
        Some(h)
    }
}

} // verus!
