use bluumm::error::Error;
use bluumm::image::{Image, SizedImage};
use bluumm::size::{Grid, Position, Size};

fn sized_from_bytes(width: u32, height: u32, bytes: Vec<u8>) -> SizedImage {
    let img = Image::new(width, height, bytes).unwrap();
    SizedImage::new(img, Size { width, height }).unwrap()
}

fn opaque_image(width: u32, height: u32, r: u8, g: u8, b: u8) -> SizedImage {
    let mut bytes = Vec::new();
    for _ in 0..(width as usize) * (height as usize) {
        bytes.push(r);
        bytes.push(g);
        bytes.push(b);
        bytes.push(255);
    }
    sized_from_bytes(width, height, bytes)
}

#[test]
fn crop_big_image() {
    let blank_img = SizedImage::new(
        Image::clear_image(1500, 1500),
        Size { width: 1500, height: 1500 },
    )
    .unwrap();
    let grid = Grid::new(Size { width: 1500, height: 1500 }, Size { width: 30, height: 30 })
        .unwrap();
    for piece in blank_img.split_into_pieces(&grid) {
        assert_eq!(piece.image.width(), 30);
        assert_eq!(piece.image.height(), 30);
    }
}

#[test]
fn mean_alpha() {
    let mut blank_img = SizedImage::new(
        Image::clear_image(1500, 1500),
        Size { width: 1500, height: 1500 },
    )
    .unwrap();
    assert_eq!(blank_img.mean_alpha(), 0);

    let white_img = opaque_image(30, 30, 255, 255, 255);
    blank_img.overpaint_by(&white_img, Position { x: 0, y: 0 });
    assert_eq!(blank_img.mean_alpha(), 255 * 10000 / (50 * 50));
}

#[test]
fn image_new_rejects_wrong_length() {
    let r = Image::new(2, 2, vec![0u8; 15]);
    assert!(matches!(
        r,
        Err(Error::InvalidImageSize { expected_width: 2, expected_height: 2 })
    ));
    assert!(Image::new(2, 2, vec![0u8; 16]).is_ok());
}

#[test]
fn sized_image_new_rejects_wrong_dimensions() {
    let img = Image::clear_image(4, 4);
    let r = SizedImage::new(img, Size { width: 5, height: 4 });
    assert!(matches!(
        r,
        Err(Error::InvalidImageSize { expected_width: 5, expected_height: 4 })
    ));
}

#[test]
fn grid_new_rejects_indivisible_sizes() {
    let origin = Size { width: 100, height: 100 };
    let tile = Size { width: 30, height: 30 };
    assert!(matches!(
        Grid::new(origin, tile),
        Err(Error::IndivisibleSizes { .. })
    ));
    let zero_tile = Size { width: 0, height: 0 };
    assert!(Grid::new(origin, zero_tile).is_err());
    assert!(Grid::new(Size { width: 0, height: 0 }, tile).is_err());
    assert!(Grid::new(Size { width: 90, height: 60 }, tile).is_ok());
}

#[test]
fn mean_grayscale_exact_values() {
    let gray = opaque_image(1, 1, 100, 100, 100);
    // luma is (299 r + 587 g + 114 b) / 1000; the mean is scaled by 10000.
    assert_eq!(gray.mean_grayscale(), 100 * 10000);

    let red = opaque_image(1, 1, 255, 0, 0);
    assert_eq!(red.mean_grayscale(), 299 * 255 * 10);

    let mixed = sized_from_bytes(2, 1, vec![0, 0, 0, 255, 100, 100, 100, 255]);
    // Two pixels with lumas 0 and 100: mean 50, scaled by 10000.
    assert_eq!(mixed.mean_grayscale(), 50 * 10000);
}

#[test]
fn mean_grayscale_uses_luma_weights_per_channel() {
    assert_eq!(opaque_image(1, 1, 255, 0, 0).mean_grayscale(), 299 * 255 * 10);
    assert_eq!(opaque_image(1, 1, 0, 255, 0).mean_grayscale(), 587 * 255 * 10);
    assert_eq!(opaque_image(1, 1, 0, 0, 255).mean_grayscale(), 114 * 255 * 10);
}

#[test]
fn transparency_detection() {
    let blank = SizedImage::clear_image(Size { width: 8, height: 8 });
    assert!(blank.is_fully_transparent());

    let mut bytes = vec![0u8; 8 * 8 * 4];
    bytes[4 * 13 + 3] = 1;
    let almost = sized_from_bytes(8, 8, bytes);
    assert!(!almost.is_fully_transparent());
}

#[test]
fn crop_extracts_exact_bytes() {
    // A 2x2 image whose bytes are 0..16 in row-major order.
    let bytes: Vec<u8> = (0u8..16).collect();
    let img = sized_from_bytes(2, 2, bytes);
    let top_right = img.crop(Position { x: 1, y: 0 }, Size { width: 1, height: 1 });
    assert_eq!(top_right.as_bytes().as_slice(), &[4, 5, 6, 7]);
    let bottom_left = img.crop(Position { x: 0, y: 1 }, Size { width: 1, height: 1 });
    assert_eq!(bottom_left.as_bytes().as_slice(), &[8, 9, 10, 11]);
    let left_column = img.crop(Position { x: 0, y: 0 }, Size { width: 1, height: 2 });
    assert_eq!(left_column.as_bytes().as_slice(), &[0, 1, 2, 3, 8, 9, 10, 11]);
}

#[test]
fn overpaint_overwrites_only_the_rectangle() {
    let mut base = SizedImage::clear_image(Size { width: 2, height: 2 });
    let piece = sized_from_bytes(1, 1, vec![9, 8, 7, 6]);
    base.overpaint_by(&piece, Position { x: 1, y: 1 });
    assert_eq!(
        base.as_bytes().as_slice(),
        &[0, 0, 0, 0, 0, 0, 0, 0, 0, 0, 0, 0, 9, 8, 7, 6]
    );
}

#[test]
fn split_into_pieces_positions_are_multiples() {
    let origin = opaque_image(60, 30, 1, 2, 3);
    let grid = Grid::new(Size { width: 60, height: 30 }, Size { width: 30, height: 30 })
        .unwrap();
    let pieces = origin.split_into_pieces(&grid);
    assert_eq!(pieces.len(), 2);
    assert_eq!(pieces[0].position, Position { x: 0, y: 0 });
    assert_eq!(pieces[1].position, Position { x: 30, y: 0 });
    for piece in &pieces {
        assert!(piece.position.x < 60 && piece.position.y < 30);
        assert_eq!(piece.position.x % 30, 0);
        assert_eq!(piece.position.y % 30, 0);
    }
}
