use bluumm::generator::MosaicArtGenerator;
use bluumm::image::{Image, SizedImage};
use bluumm::insta::{insta_post_from_response, InstaPostResponse};
use bluumm::post::{BluummPost, GenericPost, Hashtag, HashtagList, InstaPost, InstaPostId};
use bluumm::size::{Grid, Size};
use bluumm::util::Id;
use bluumm::worker::{HashtagCycle, WorkerContainer, WorkerCore, WorkerId, FILL_PROCESS_BOOST};

fn sized_from_bytes(width: u32, height: u32, bytes: Vec<u8>) -> SizedImage {
    let img = Image::new(width, height, bytes).unwrap();
    SizedImage::new(img, Size { width, height }).unwrap()
}

fn opaque_image(width: u32, height: u32, r: u8, g: u8, b: u8) -> SizedImage {
    let mut bytes = Vec::new();
    for _ in 0..(width as usize) * (height as usize) {
        bytes.push(r);
        bytes.push(g);
        bytes.push(b);
        bytes.push(255);
    }
    sized_from_bytes(width, height, bytes)
}

fn one_slot_core() -> WorkerCore {
    let origin = opaque_image(30, 30, 0, 0, 0);
    let grid = Grid::new(Size { width: 30, height: 30 }, Size { width: 30, height: 30 }).unwrap();
    let (gen, art) = MosaicArtGenerator::new(origin, grid, HashtagList::new(vec![
        "mosaic".to_string(),
    ]));
    WorkerCore::new(gen, art)
}

fn direct_post(name: &str) -> GenericPost {
    GenericPost::BluummPost(BluummPost::new(
        opaque_image(30, 30, 128, 128, 128),
        name.to_string(),
        Hashtag::new("mosaic"),
    ))
}

fn feed_post(id: &str) -> GenericPost {
    GenericPost::InstaPost(InstaPost::new(
        InstaPostId(id.to_string()),
        opaque_image(30, 30, 128, 128, 128),
        "someone".to_string(),
        Hashtag::new("mosaic"),
    ))
}

#[test]
fn cancellation_stops_all_queued_posts() {
    // Cancel first, then hand the worker 10,000 queued direct posts: none
    // is applied, and the last published snapshot stays readable.
    let mut core = one_slot_core();
    let before = core.get_art();
    core.handle_cancel();
    for k in 0..10_000u32 {
        let applied = core.handle_post(direct_post(&format!("queued{}", k)), false);
        assert!(!applied);
    }
    let after = core.get_art();
    assert_eq!(after.id.into_raw(), before.id.into_raw());
    assert_eq!(after.posts.len(), 0);
}

#[test]
fn feed_posts_are_deduplicated_direct_posts_are_not() {
    let mut core = one_slot_core();
    assert!(!core.handle_post(feed_post("seen-before"), true));
    assert!(core.handle_post(feed_post("fresh"), false));
    // A direct-submission post carries no id and is never deduplicated.
    assert!(core.handle_post(direct_post("direct"), true));
}

#[test]
fn fill_boost_applies_extra_copies_until_full() {
    let mut core = one_slot_core();
    assert!(!core.has_enough_pieces());

    // While slots are unfilled the post is applied 1 + boost times, so the
    // snapshot counter advances that far past the initial snapshot (id 0).
    assert!(core.handle_post(direct_post("early"), false));
    let boosted = core.get_art();
    assert_eq!(boosted.id.into_raw(), 1 + FILL_PROCESS_BOOST as u64);
    assert!(core.has_enough_pieces());

    // Once full, each post is applied exactly once.
    assert!(core.handle_post(direct_post("later"), false));
    let steady = core.get_art();
    assert_eq!(steady.id.into_raw(), 2 + FILL_PROCESS_BOOST as u64);
    assert_eq!(steady.posts.len(), 1);
}

#[test]
fn warm_restart_prefers_direct_posts_and_stops_at_tile_count() {
    // Two open slots, three stored posts: the direct post and the first
    // feed post are applied, the rest is cut off by the tile count.
    let origin = opaque_image(60, 30, 0, 0, 0);
    let grid = Grid::new(Size { width: 60, height: 30 }, Size { width: 30, height: 30 }).unwrap();
    let (gen, art) = MosaicArtGenerator::new(origin, grid, HashtagList::new(vec![
        "mosaic".to_string(),
    ]));
    let mut core = WorkerCore::new(gen, art);

    let bluumm = vec![BluummPost::new(
        opaque_image(30, 30, 255, 255, 255),
        "direct".to_string(),
        Hashtag::new("mosaic"),
    )];
    let insta = vec![
        InstaPost::new(
            InstaPostId("f1".to_string()),
            opaque_image(30, 30, 255, 255, 255),
            "feeder".to_string(),
            Hashtag::new("mosaic"),
        ),
        InstaPost::new(
            InstaPostId("f2".to_string()),
            opaque_image(30, 30, 255, 255, 255),
            "feeder".to_string(),
            Hashtag::new("mosaic"),
        ),
    ];
    core.apply_initial_posts(bluumm, insta);
    assert!(core.has_enough_pieces());
    // The published snapshot is not advanced by the warm restart.
    assert_eq!(core.get_art().id.into_raw(), 0);
}

#[test]
fn warm_restart_cuts_off_even_direct_posts() {
    // One open slot, two direct posts stored: only the first is applied.
    let mut core = one_slot_core();
    let direct = |name: &str| {
        BluummPost::new(
            opaque_image(30, 30, 255, 255, 255),
            name.to_string(),
            Hashtag::new("mosaic"),
        )
    };
    core.apply_initial_posts(vec![direct("one"), direct("two")], Vec::new());
    // The initial snapshot took id 0; exactly one warm-restart apply
    // advances the counter to 2.
    assert_eq!(core.next_snapshot_id(), 2);
    assert!(core.has_enough_pieces());
}

#[test]
fn registry_start_lookup_stop() {
    let mut registry: WorkerContainer<u32> = WorkerContainer::new();
    let id1 = registry.add(7);
    let id2 = registry.add(8);
    assert_ne!(id1.into_raw(), id2.into_raw());

    assert_eq!(registry.get(&id1), Some(&7));
    assert_eq!(registry.get(&id2), Some(&8));

    // Stopping removes the worker; a second stop on the same id reports
    // failure by finding nothing.
    assert_eq!(registry.take(&id1), Some(7));
    assert_eq!(registry.take(&id1), None);
    assert!(registry.get(&id1).is_none());
    assert_eq!(registry.get(&id2), Some(&8));

    let reborn = WorkerId::from_raw(id1.into_raw());
    assert_eq!(reborn.into_raw(), id1.into_raw());
}

#[test]
fn id_raw_round_trip() {
    let id = Id::from_raw(42);
    assert_eq!(id.into_raw(), 42);
}

#[test]
fn hashtag_cycle_wraps_around() {
    let mut cycle = HashtagCycle::new(vec!["a".to_string(), "b".to_string()]);
    assert_eq!(cycle.next(), Some("a".to_string()));
    assert_eq!(cycle.next(), Some("b".to_string()));
    assert_eq!(cycle.next(), Some("a".to_string()));
    assert_eq!(cycle.next(), Some("b".to_string()));
}

#[test]
fn hashtag_list_iterates_in_order() {
    let list = HashtagList::new(vec!["x".to_string(), "y".to_string()]);
    assert_eq!(list.len(), 2);
    assert_eq!(list.get(0).as_str(), "x");
    let mut it = list.iter();
    assert_eq!(it.next().map(|h| h.as_str().to_string()), Some("x".to_string()));
    assert_eq!(it.next().map(|h| h.as_str().to_string()), Some("y".to_string()));
    assert!(it.next().is_none());
}

#[test]
fn hashtag_iterator_of_empty_list_is_empty() {
    let list = HashtagList::new(Vec::new());
    assert_eq!(list.len(), 0);
    assert!(list.iter().next().is_none());
}

#[test]
fn feed_response_becomes_post() {
    let resp = InstaPostResponse {
        id: InstaPostId("abc".to_string()),
        user_name: "author".to_string(),
        image_url: "https://example.invalid/abc.png".to_string(),
    };
    let post = insta_post_from_response(resp, opaque_image(30, 30, 1, 2, 3), Hashtag::new("tag"));
    assert_eq!(post.post_id.as_str(), "abc");
    assert_eq!(post.user_name, "author");
    assert_eq!(post.hashtag.as_str(), "tag");
}
