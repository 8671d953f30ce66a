use bluumm::distance::MeanGrayscale;
use bluumm::generator::MosaicArtGenerator;
use bluumm::image::{Image, SizedImage};
use bluumm::piece::{MosaicPiece, MosaicPieceVec};
use bluumm::post::{BluummPost, GenericPost, Hashtag, HashtagList, InstaPost, InstaPostId, Post};
use bluumm::size::{Grid, Position, Size};

fn sized_from_bytes(width: u32, height: u32, bytes: Vec<u8>) -> SizedImage {
    let img = Image::new(width, height, bytes).unwrap();
    SizedImage::new(img, Size { width, height }).unwrap()
}

fn opaque_image(width: u32, height: u32, r: u8, g: u8, b: u8) -> SizedImage {
    let mut bytes = Vec::new();
    for _ in 0..(width as usize) * (height as usize) {
        bytes.push(r);
        bytes.push(g);
        bytes.push(b);
        bytes.push(255);
    }
    sized_from_bytes(width, height, bytes)
}

/// An origin image that is fully transparent except for the listed tiles of
/// a `tile` x `tile` grid, which are opaque black.
fn origin_with_opaque_tiles(width: u32, height: u32, tile: u32, opaque: &[(u32, u32)]) -> SizedImage {
    let mut bytes = vec![0u8; (width as usize) * (height as usize) * 4];
    for &(tx, ty) in opaque {
        for row in 0..tile {
            for col in 0..tile {
                let x = tx * tile + col;
                let y = ty * tile + row;
                let idx = 4 * ((y as usize) * (width as usize) + x as usize) + 3;
                bytes[idx] = 255;
            }
        }
    }
    sized_from_bytes(width, height, bytes)
}

fn direct_post(name: &str) -> GenericPost {
    GenericPost::BluummPost(BluummPost::new(
        SizedImage::clear_image(Size { width: 30, height: 30 }),
        name.to_string(),
        Hashtag::new("mosaic"),
    ))
}

#[test]
fn distance_vec_is_absolute_difference_of_means() {
    let origin = opaque_image(1, 1, 100, 100, 100);
    let grid = Grid::new(Size { width: 1, height: 1 }, Size { width: 1, height: 1 }).unwrap();
    let f = MeanGrayscale::from_origin(&origin, grid);

    let candidate = opaque_image(1, 1, 50, 50, 50);
    // Signature 100*10000, candidate mean 50*10000.
    assert_eq!(f.distance_vec(&candidate), vec![50 * 10000]);

    let brighter = opaque_image(1, 1, 200, 200, 200);
    assert_eq!(f.distance_vec(&brighter), vec![100 * 10000]);
}

#[test]
fn replace_prefers_largest_gap() {
    // Two tiles: the left origin tile is black, the right one white.
    let mut bytes = Vec::new();
    for i in 0..60 * 30 {
        let white = (i % 60) >= 30;
        let v = if white { 255 } else { 0 };
        bytes.push(v);
        bytes.push(v);
        bytes.push(v);
        bytes.push(255);
    }
    let origin = sized_from_bytes(60, 30, bytes);
    let grid = Grid::new(Size { width: 60, height: 30 }, Size { width: 30, height: 30 }).unwrap();
    let f = MeanGrayscale::from_origin(&origin, grid);
    let mut table = MosaicPieceVec::with_origin_image(&origin, grid);

    // A white candidate matches the right tile exactly and the left poorly.
    let white = opaque_image(30, 30, 255, 255, 255);
    let dv = f.distance_vec(&white);
    assert_eq!(dv, vec![255 * 10000, 0]);

    // Both slots are empty (distance MAX), so the white tile, at distance
    // 0, offers the larger gap and wins the first placement.
    let (pos, evicted) = table.replace_piece(MosaicPiece {
        post: direct_post("first"),
        distance_vec: dv.clone(),
    });
    assert_eq!(pos, Position { x: 30, y: 0 });
    assert!(evicted.is_none());

    // The white slot is now optimal for this candidate (gap 0), so the
    // still-empty black slot offers the larger gap.
    let (pos2, _) = table.replace_piece(MosaicPiece {
        post: direct_post("second"),
        distance_vec: dv.clone(),
    });
    assert_eq!(pos2, Position { x: 0, y: 0 });
}

#[test]
fn tie_break_chooses_lowest_index() {
    let origin = opaque_image(90, 30, 0, 0, 0);
    let grid = Grid::new(Size { width: 90, height: 30 }, Size { width: 30, height: 30 }).unwrap();
    let mut table = MosaicPieceVec::with_origin_image(&origin, grid);

    // All three slots are empty, so a constant distance vector makes every
    // gap equal: the lowest tile index must win.
    let (pos, _) = table.replace_piece(MosaicPiece {
        post: direct_post("a"),
        distance_vec: vec![7, 7, 7],
    });
    assert_eq!(pos, Position { x: 0, y: 0 });

    // Slots 1 and 2 still tie (both empty); slot 1 must win over slot 2.
    let (pos2, _) = table.replace_piece(MosaicPiece {
        post: direct_post("b"),
        distance_vec: vec![6, 6, 6],
    });
    assert_eq!(pos2, Position { x: 30, y: 0 });
}

#[test]
fn transparent_slot_is_never_replaced() {
    // Tile (0,0) has content; tile (1,0) is fully transparent and locked.
    let origin = origin_with_opaque_tiles(60, 30, 30, &[(0, 0)]);
    let grid = Grid::new(Size { width: 60, height: 30 }, Size { width: 30, height: 30 }).unwrap();
    let mut table = MosaicPieceVec::with_origin_image(&origin, grid);
    assert_eq!(table.distance_at(1), 0);

    for dv0 in [5u64, 4, 1000, 0, u64::MAX] {
        let (pos, _) = table.replace_piece(MosaicPiece {
            post: direct_post("c"),
            distance_vec: vec![dv0, 0],
        });
        assert_eq!(pos, Position { x: 0, y: 0 });
    }
    assert!(!table.is_occupied(1));
    assert_eq!(table.distance_at(1), 0);
}

#[test]
fn applying_same_feed_post_twice_keeps_one_occupant() {
    // One open slot and one transparent-locked slot. Applying the same
    // feed-id post twice, deliberately bypassing the dedup filter, leaves
    // the table with exactly one occupant for that id. (With more open
    // slots `replace` itself would happily place the post twice: keeping a
    // post unique is the dedup filter's responsibility, not the table's.)
    let origin = origin_with_opaque_tiles(60, 30, 30, &[(0, 0)]);
    let grid = Grid::new(Size { width: 60, height: 30 }, Size { width: 30, height: 30 }).unwrap();
    let (mut gen, art0) = MosaicArtGenerator::new(
        origin,
        grid,
        HashtagList::new(vec!["mosaic".to_string()]),
    );
    assert_eq!(art0.posts.len(), 0);

    let post = |name: &str| {
        GenericPost::InstaPost(InstaPost::new(
            InstaPostId("p1".to_string()),
            opaque_image(30, 30, 200, 200, 200),
            name.to_string(),
            Hashtag::new("mosaic"),
        ))
    };
    let art1 = gen.apply_post(post("u"));
    assert_eq!(art1.posts.len(), 1);
    let art2 = gen.apply_post(post("u"));
    assert_eq!(art2.posts.len(), 1);
    match &art2.posts[0] {
        GenericPost::InstaPost(p) => assert_eq!(p.post_id.as_str(), "p1"),
        GenericPost::BluummPost(_) => panic!("expected the feed post"),
    }
}

#[test]
fn generator_snapshots_count_up_and_paint() {
    let origin = opaque_image(30, 30, 0, 0, 0);
    let grid = Grid::new(Size { width: 30, height: 30 }, Size { width: 30, height: 30 }).unwrap();
    let (mut gen, art0) = MosaicArtGenerator::new(
        origin,
        grid,
        HashtagList::new(vec!["a".to_string(), "b".to_string()]),
    );
    assert_eq!(art0.id.into_raw(), 0);
    assert_eq!(art0.posts.len(), 0);
    assert_eq!(art0.hashtags.len(), 2);
    assert!(art0.image.is_fully_transparent());
    assert!(!gen.has_enough_pieces());

    let art1 = gen.apply_post(direct_post("painter"));
    assert_eq!(art1.id.into_raw(), 1);
    assert_eq!(art1.posts.len(), 1);
    assert_eq!(art1.posts[0].user_name(), "painter");
    assert!(gen.has_enough_pieces());

    let art2 = gen.apply_post(direct_post("painter2"));
    assert_eq!(art2.id.into_raw(), 2);
    assert_eq!(art2.posts.len(), 1);
}

#[test]
fn eviction_returns_former_occupant() {
    let origin = opaque_image(30, 30, 0, 0, 0);
    let grid = Grid::new(Size { width: 30, height: 30 }, Size { width: 30, height: 30 }).unwrap();
    let mut table = MosaicPieceVec::with_origin_image(&origin, grid);

    let (_, evicted) = table.replace_piece(MosaicPiece {
        post: direct_post("old"),
        distance_vec: vec![10],
    });
    assert!(evicted.is_none());
    let (_, evicted2) = table.replace_piece(MosaicPiece {
        post: direct_post("new"),
        distance_vec: vec![5],
    });
    let evicted2 = evicted2.expect("an occupant was displaced");
    assert_eq!(evicted2.post.user_name(), "old");
    assert_eq!(table.iter().len(), 1);
    assert_eq!(table.iter()[0].post.user_name(), "new");
}

#[test]
fn end_to_end_2500_slots() {
    // Origin 1500x1500, tile 30x30: 2500 slots. Only tile (0,0) has
    // content, so strictly improving candidates keep landing on slot 0 and
    // its stored distance tracks the smallest distance seen so far.
    let origin = origin_with_opaque_tiles(1500, 1500, 30, &[(0, 0)]);
    let grid = Grid::new(Size { width: 1500, height: 1500 }, Size { width: 30, height: 30 })
        .unwrap();
    assert_eq!(grid.num_tiles(), 2500);
    let mut table = MosaicPieceVec::with_origin_image(&origin, grid);
    assert_eq!(table.len(), 50 * 50);

    for k in 0..2500u64 {
        let mut dv = vec![0u64; 2500];
        dv[0] = 2500 - k;
        let (pos, _) = table.replace_piece(MosaicPiece {
            post: direct_post(&format!("u{}", k)),
            distance_vec: dv,
        });
        assert_eq!(pos, Position { x: 0, y: 0 });
        assert_eq!(table.distance_at(0), 2500 - k);
    }

    let occupants = table.iter();
    assert!(occupants.len() <= 2500);
    assert_eq!(occupants.len(), 1);
    assert_eq!(occupants[0].post.user_name(), "u2499");
}
