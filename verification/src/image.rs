//! Owned RGBA pixel buffers: construction, cropping, painting, splitting an
//! origin into tiles, and the scalar summaries (mean grayscale, mean alpha)
//! that drive tile assignment.
//!
//! All pixel statistics are fixed-point integers: a mean grayscale or mean
//! alpha is reported scaled by 10000 and truncated, which keeps downstream
//! comparisons exact.

use vstd::prelude::*;
use vstd::pervasive::VecAdditionalExecFns;

use crate::error::Error;
use crate::size::{Grid, Position, Size};

verus! {

/// Mathematical model of an RGBA image: a row-major byte sequence holding
/// four bytes (red, green, blue, alpha) per pixel.
#[verifier::ext_equal]
pub ghost struct ImageModel {
    pub width: int,
    pub height: int,
    pub pixels: Seq<u8>,
}

/// Weight of one 8-bit luma conversion, scaled by 1000 (ITU-R BT.601).
pub open spec fn luma_milli(r: u8, g: u8, b: u8) -> int {
    299 * r + 587 * g + 114 * b
}

impl ImageModel {
    pub open spec fn pixel_count(self) -> int {
        self.width * self.height
    }

    pub open spec fn wf(self) -> bool {
        &&& 0 <= self.width <= u32::MAX
        &&& 0 <= self.height <= u32::MAX
        &&& self.pixels.len() == 4 * self.pixel_count()
        &&& self.pixels.len() <= usize::MAX
    }

    /// Luma of pixel `k`, scaled by 1000; at most 255000.
    pub open spec fn luma_at(self, k: int) -> int {
        luma_milli(self.pixels[4 * k], self.pixels[4 * k + 1], self.pixels[4 * k + 2])
    }

    pub open spec fn alpha_at(self, k: int) -> u8 {
        self.pixels[4 * k + 3]
    }

    /// Sum of the scaled lumas of the first `n` pixels.
    pub open spec fn luma_sum(self, n: int) -> int
        decreases n,
    {
        if n <= 0 {
            0
        } else {
            self.luma_sum(n - 1) + self.luma_at(n - 1)
        }
    }

    /// Sum of the alpha channel over the first `n` pixels.
    pub open spec fn alpha_sum(self, n: int) -> int
        decreases n,
    {
        if n <= 0 {
            0
        } else {
            self.alpha_sum(n - 1) + self.alpha_at(n - 1)
        }
    }

    /// Mean grayscale value scaled by 10000, truncated.
    pub open spec fn mean_gray_scaled(self) -> int
        recommends
            self.pixel_count() > 0,
    {
        self.luma_sum(self.pixel_count()) * 10 / self.pixel_count()
    }

    /// Mean alpha value scaled by 10000, truncated.
    pub open spec fn mean_alpha_scaled(self) -> int
        recommends
            self.pixel_count() > 0,
    {
        self.alpha_sum(self.pixel_count()) * 10000 / self.pixel_count()
    }

    /// Every pixel has alpha 0: there is nothing visible in the image.
    pub open spec fn fully_transparent(self) -> bool {
        forall|k: int| 0 <= k < self.pixel_count() ==> self.alpha_at(k) == 0
    }

    /// Byte `i` of the `tw`-pixel-wide crop whose top-left pixel is `(x, y)`.
    pub open spec fn crop_pix(self, x: int, y: int, tw: int, i: int) -> u8 {
        self.pixels[(y + i / (4 * tw)) * (4 * self.width) + 4 * x + i % (4 * tw)]
    }

    /// The `tw` by `th` sub-rectangle whose top-left pixel is `(x, y)`.
    pub open spec fn crop(self, x: int, y: int, tw: int, th: int) -> ImageModel {
        ImageModel {
            width: tw,
            height: th,
            pixels: Seq::new((4 * (tw * th)) as nat, |i: int| self.crop_pix(x, y, tw, i)),
        }
    }

    /// Byte `i` after painting the first `rows_done` rows of `piece`, plus
    /// the first `cols_done` bytes of the next row, at `(x, y)`.
    pub open spec fn paint_pix_partial(
        self,
        piece: ImageModel,
        x: int,
        y: int,
        rows_done: int,
        cols_done: int,
        i: int,
    ) -> u8 {
        let row = i / (4 * self.width);
        let col = i % (4 * self.width);
        if 4 * x <= col < 4 * x + 4 * piece.width && (y <= row < y + rows_done || (row == y
            + rows_done && col < 4 * x + cols_done)) {
            piece.pixels[(row - y) * (4 * piece.width) + (col - 4 * x)]
        } else {
            self.pixels[i]
        }
    }

    /// Byte `i` after painting all of `piece` at `(x, y)`.
    pub open spec fn paint_pix(self, piece: ImageModel, x: int, y: int, i: int) -> u8 {
        self.paint_pix_partial(piece, x, y, piece.height, 0, i)
    }

    /// `self` with the rectangle at `(x, y)` overwritten by `piece`
    /// (a plain overwrite, no blending).
    pub open spec fn paint(self, piece: ImageModel, x: int, y: int) -> ImageModel {
        ImageModel {
            width: self.width,
            height: self.height,
            pixels: Seq::new(self.pixels.len(), |i: int| self.paint_pix(piece, x, y, i)),
        }
    }
}

/// Splits a row-major byte index back into its row and column.
proof fn lemma_row_major(row: int, col: int, stride: int)
    requires
        0 <= row,
        0 <= col < stride,
    ensures
        (row * stride + col) / stride == row,
        (row * stride + col) % stride == col,
        0 <= row * stride + col,
{
    assert((row * stride + col) / stride == row && (row * stride + col) % stride == col && 0 <= row
        * stride + col) by (nonlinear_arith)
        requires
            0 <= row,
            0 <= col < stride,
    ;
}

/// A byte address computed from an in-range row and column lies inside the
/// image buffer.
proof fn lemma_addr_bound(row: int, col: int, w: int, h: int)
    requires
        0 <= row < h,
        0 <= col < 4 * w,
    ensures
        0 <= row * (4 * w) + col < 4 * (w * h),
        4 * w <= 4 * (w * h),
{
    assert(0 <= row * (4 * w) + col < 4 * (w * h) && 4 * w <= 4 * (w * h)) by (nonlinear_arith)
        requires
            0 <= row < h,
            0 <= col < 4 * w,
    ;
}

/// The scaled luma sum of `n` in-range pixels lies between 0 and `255000 * n`.
pub proof fn lemma_luma_sum_bounds(m: ImageModel, n: int)
    requires
        m.wf(),
        0 <= n <= m.pixel_count(),
    ensures
        0 <= m.luma_sum(n) <= 255000 * n,
    decreases n,
{
    if n > 0 {
        lemma_luma_sum_bounds(m, n - 1);
        assert(4 * (n - 1) + 2 < m.pixels.len());
    }
}

/// The alpha sum of `n` in-range pixels lies between 0 and `255 * n`.
pub proof fn lemma_alpha_sum_bounds(m: ImageModel, n: int)
    requires
        m.wf(),
        0 <= n <= m.pixel_count(),
    ensures
        0 <= m.alpha_sum(n) <= 255 * n,
    decreases n,
{
    if n > 0 {
        lemma_alpha_sum_bounds(m, n - 1);
    }
}

/// An owned RGBA pixel grid of known dimensions.
#[derive(Debug)]
pub struct Image {
    width: u32,
    height: u32,
    pixels: Vec<u8>,
}

impl View for Image {
    type V = ImageModel;

    closed spec fn view(&self) -> ImageModel {
        ImageModel { width: self.width as int, height: self.height as int, pixels: self.pixels@ }
    }
}

impl Clone for Image {
    /// Cloning preserves the pixel model exactly.
    fn clone(&self) -> (r: Self)
        ensures
            r@ == self@,
    {
        let r = Image { width: self.width, height: self.height, pixels: copy_bytes(&self.pixels) };
        proof {
            assert(r@.pixels =~= self@.pixels);
        }
        r
    }
}

/// Verified byte-for-byte copy of a buffer.
fn copy_bytes(v: &Vec<u8>) -> (r: Vec<u8>)
    ensures
        r@ =~= v@,
{
    let mut r: Vec<u8> = Vec::with_capacity(v.len());
    let mut i: usize = 0;
    while i < v.len()
        invariant
            i <= v@.len(),
            r@ =~= v@.take(i as int),
        decreases v@.len() - i,
    {
        r.push(v[i]);
        i += 1;
    }
    r
}

impl Image {
    /// Wraps a raw RGBA byte buffer, rejecting it unless its length is
    /// exactly `4 * width * height`.
    pub fn new(width: u32, height: u32, pixels: Vec<u8>) -> (r: Result<Image, Error>)
        ensures
            r is Ok <==> pixels@.len() == 4 * (width * height),
            r matches Ok(img) ==> img@ == (ImageModel {
                width: width as int,
                height: height as int,
                pixels: pixels@,
            }) && img@.wf(),
            r matches Err(e) ==> e == (Error::InvalidImageSize {
                expected_width: width,
                expected_height: height,
            }),
    {
        proof {
            assert(0 <= (width as int) * (height as int) <= 0xffff_ffff * 0xffff_ffff
                && (4 * (width as int)) * (height as int) == 4 * ((width as int) * (height as int)))
                by (nonlinear_arith)
                requires
                    width <= u32::MAX,
                    height <= u32::MAX,
            ;
        }
        let expected: u128 = 4 * (width as u128) * (height as u128);
        if pixels.len() as u128 == expected {
            Ok(Image { width, height, pixels })
        } else {
            Err(Error::InvalidImageSize { expected_width: width, expected_height: height })
        }
    }

    pub fn width(&self) -> (w: u32)
        ensures
            w == self@.width,
    {
        self.width
    }

    pub fn height(&self) -> (h: u32)
        ensures
            h == self@.height,
    {
        self.height
    }

    /// The raw RGBA bytes, row-major, four per pixel.
    pub fn as_bytes(&self) -> (r: &Vec<u8>)
        ensures
            r@ == self@.pixels,
    {
        &self.pixels
    }

    /// A fully transparent (all-zero) image of the given dimensions.
    pub fn clear_image(width: u32, height: u32) -> (img: Image)
        requires
            4 * (width * height) <= usize::MAX,
        ensures
            img@.wf(),
            img@.width == width,
            img@.height == height,
            forall|i: int| 0 <= i < img@.pixels.len() ==> img@.pixels[i] == 0u8,
            img@.fully_transparent(),
    {
        proof {
            assert(0 <= (width as int) * (height as int)) by (nonlinear_arith);
        }
        let count: usize = (width as usize) * (height as usize);
        let total: usize = 4 * count;
        let mut pixels: Vec<u8> = Vec::with_capacity(total);
        let mut i: usize = 0;
        while i < total
            invariant
                i <= total,
                pixels@.len() == i,
                forall|j: int| 0 <= j < i ==> pixels@[j] == 0u8,
            decreases total - i,
        {
            pixels.push(0u8);
            i += 1;
        }
        let img = Image { width, height, pixels };
        proof {
            assert(forall|k: int| 0 <= k < img@.pixel_count() ==> #[trigger] img@.alpha_at(k) == 0);
        }
        img
    }

    /// Number of pixels, as an executable value.
    fn pixel_count_exec(&self) -> (n: usize)
        requires
            self@.wf(),
        ensures
            n == self@.pixel_count(),
            4 * n == self@.pixels.len(),
    {
        (self.width as usize) * (self.height as usize)
    }

    /// Mean grayscale value, scaled by 10000 and truncated.
    ///
    /// The grayscale of one pixel is its ITU-R BT.601 luma; the result is
    /// a pure function of the pixel contents.
    pub fn mean_grayscale(&self) -> (r: u64)
        requires
            self@.wf(),
            self@.pixel_count() > 0,
        ensures
            r == self@.mean_gray_scaled(),
            r <= 2550000,
    {
        let count = self.pixel_count_exec();
        let mut acc: u128 = 0;
        let mut i: usize = 0;
        while i < count
            invariant
                self@.wf(),
                0 < count == self@.pixel_count(),
                4 * count == self@.pixels.len(),
                i <= count,
                acc == self@.luma_sum(i as int),
                acc <= 255000 * (i as int),
            decreases count - i,
        {
            let red = self.pixels[4 * i];
            let green = self.pixels[4 * i + 1];
            let blue = self.pixels[4 * i + 2];
            let luma: u64 = 299 * (red as u64) + 587 * (green as u64) + 114 * (blue as u64);
            proof {
                lemma_luma_sum_bounds(self@, i as int + 1);
            }
            acc = acc + (luma as u128);
            i += 1;
        }
        proof {
            lemma_scaled_mean_bound(acc as int, count as int, 255000, 10);
        }
        ((acc * 10) / (count as u128)) as u64
    }

    /// Mean alpha value, scaled by 10000 and truncated.
    pub fn mean_alpha(&self) -> (r: u64)
        requires
            self@.wf(),
            self@.pixel_count() > 0,
        ensures
            r == self@.mean_alpha_scaled(),
            r <= 2550000,
    {
        let count = self.pixel_count_exec();
        let mut acc: u128 = 0;
        let mut i: usize = 0;
        while i < count
            invariant
                self@.wf(),
                0 < count == self@.pixel_count(),
                4 * count == self@.pixels.len(),
                i <= count,
                acc == self@.alpha_sum(i as int),
                acc <= 255 * (i as int),
            decreases count - i,
        {
            let alpha = self.pixels[4 * i + 3];
            proof {
                lemma_alpha_sum_bounds(self@, i as int + 1);
            }
            acc = acc + (alpha as u128);
            i += 1;
        }
        proof {
            lemma_scaled_mean_bound(acc as int, count as int, 255, 10000);
        }
        ((acc * 10000) / (count as u128)) as u64
    }

    /// Whether every pixel of the image has alpha 0.
    pub fn is_fully_transparent(&self) -> (r: bool)
        requires
            self@.wf(),
        ensures
            r <==> self@.fully_transparent(),
    {
        let count = self.pixel_count_exec();
        let mut i: usize = 0;
        while i < count
            invariant
                self@.wf(),
                count == self@.pixel_count(),
                4 * count == self@.pixels.len(),
                i <= count,
                forall|k: int| 0 <= k < i ==> self@.alpha_at(k) == 0,
            decreases count - i,
        {
            if self.pixels[4 * i + 3] != 0 {
                assert(self@.alpha_at(i as int) != 0);
                return false;
            }
            i += 1;
        }
        true
    }
}

impl Image {
    /// Extracts the `tile`-sized sub-rectangle whose top-left pixel is `pos`,
    /// by bounds-checked row-wise copies.
    pub fn crop(&self, pos: Position, tile: Size) -> (r: Image)
        requires
            self@.wf(),
            pos.x + tile.width <= self@.width,
            pos.y + tile.height <= self@.height,
        ensures
            r@ == self@.crop(pos.x as int, pos.y as int, tile.width as int, tile.height as int),
            r@.wf(),
    {
        let ghost model = self@.crop(pos.x as int, pos.y as int, tile.width as int,
            tile.height as int);
        if tile.width == 0 || tile.height == 0 {
            let r = Image { width: tile.width, height: tile.height, pixels: Vec::new() };
            proof {
                assert(4 * ((tile.width as int) * (tile.height as int)) == 0) by (nonlinear_arith)
                    requires
                        tile.width == 0 || tile.height == 0,
                ;
                assert(r@ =~= model);
            }
            return r;
        }
        let w: usize = self.width as usize;
        let h: usize = self.height as usize;
        let tw: usize = tile.width as usize;
        let th: usize = tile.height as usize;
        proof {
            lemma_addr_bound(0, 0, w as int, h as int);
        }
        let w4: usize = 4 * w;
        let stride: usize = 4 * tw;
        let mut out: Vec<u8> = Vec::new();
        let mut row: usize = 0;
        while row < th
            invariant
                self@.wf(),
                w == self@.width,
                h == self@.height,
                tw == tile.width,
                th == tile.height,
                w4 == 4 * w,
                stride == 4 * tw,
                pos.x + tw <= w,
                pos.y + th <= h,
                1 <= tw,
                1 <= th,
                row <= th,
                out@.len() == row * stride,
                forall|i: int|
                    0 <= i < out@.len() ==> #[trigger] out@[i] == self@.crop_pix(
                        pos.x as int,
                        pos.y as int,
                        tw as int,
                        i,
                    ),
            decreases th - row,
        {
            let mut col: usize = 0;
            while col < stride
                invariant
                    self@.wf(),
                    w == self@.width,
                    h == self@.height,
                    tw == tile.width,
                    th == tile.height,
                    w4 == 4 * w,
                    stride == 4 * tw,
                    pos.x + tw <= w,
                    pos.y + th <= h,
                    1 <= tw,
                    1 <= th,
                    row < th,
                    col <= stride,
                    out@.len() == row * stride + col,
                    forall|i: int|
                        0 <= i < out@.len() ==> #[trigger] out@[i] == self@.crop_pix(
                            pos.x as int,
                            pos.y as int,
                            tw as int,
                            i,
                        ),
                decreases stride - col,
            {
                proof {
                    lemma_addr_bound((pos.y + row) as int, (4 * pos.x + col) as int, w as int,
                        h as int);
                    lemma_row_major(row as int, col as int, stride as int);
                    assert(4 * pos.x + col < 4 * w);
                }
                let src: usize = ((pos.y as usize) + row) * w4 + 4 * (pos.x as usize) + col;
                let byte = self.pixels[src];
                out.push(byte);
                col += 1;
            }
            row += 1;
            proof {
                assert(row * stride == (row - 1) * stride + stride) by (nonlinear_arith)
                ;
            }
        }
        let len_witness: usize = out.len();
        let r = Image { width: tile.width, height: tile.height, pixels: out };
        proof {
            assert(r@.pixels.len() == len_witness <= usize::MAX);
            assert(th * stride == 4 * ((tw as int) * (th as int))) by (nonlinear_arith)
                requires
                    stride == 4 * tw,
            ;
            assert(r@.pixels =~= model.pixels);
            assert(r@ =~= model);
        }
        r
    }

    /// Overwrites the rectangle at `pos` with `piece`, by bounds-checked
    /// per-byte writes; no blending.
    pub fn paint(&mut self, piece: &Image, pos: Position)
        requires
            old(self)@.wf(),
            piece@.wf(),
            pos.x + piece@.width <= old(self)@.width,
            pos.y + piece@.height <= old(self)@.height,
        ensures
            final(self)@ == old(self)@.paint(piece@, pos.x as int, pos.y as int),
            final(self)@.wf(),
    {
        let w: usize = self.width as usize;
        let h: usize = self.height as usize;
        let pw: usize = piece.width as usize;
        let ph: usize = piece.height as usize;
        if pw == 0 || ph == 0 {
            proof {
                assert(self@.pixels =~= old(self)@.paint(piece@, pos.x as int,
                    pos.y as int).pixels) by {
                    assert(forall|i: int|
                        0 <= i < self@.pixels.len() ==> #[trigger] self@.pixels[i] == old(self)@.paint_pix(
                            piece@,
                            pos.x as int,
                            pos.y as int,
                            i,
                        ));
                }
                assert(self@ =~= old(self)@.paint(piece@, pos.x as int, pos.y as int));
            }
            return ;
        }
        proof {
            lemma_addr_bound(0, 0, w as int, h as int);
            lemma_addr_bound(0, 0, pw as int, ph as int);
        }
        let w4: usize = 4 * w;
        let stride: usize = 4 * pw;
        let mut row: usize = 0;
        while row < ph
            invariant
                old(self)@.wf(),
                piece@.wf(),
                w == old(self)@.width,
                h == old(self)@.height,
                pw == piece@.width,
                ph == piece@.height,
                w4 == 4 * w,
                stride == 4 * pw,
                pos.x + pw <= w,
                pos.y + ph <= h,
                1 <= pw,
                1 <= ph,
                row <= ph,
                self@.width == old(self)@.width,
                self@.height == old(self)@.height,
                self@.pixels.len() == old(self)@.pixels.len(),
                forall|i: int|
                    0 <= i < self@.pixels.len() ==> #[trigger] self@.pixels[i]
                        == old(self)@.paint_pix_partial(
                        piece@,
                        pos.x as int,
                        pos.y as int,
                        row as int,
                        0,
                        i,
                    ),
            decreases ph - row,
        {
            let mut col: usize = 0;
            while col < stride
                invariant
                    old(self)@.wf(),
                    piece@.wf(),
                    w == old(self)@.width,
                    h == old(self)@.height,
                    pw == piece@.width,
                    ph == piece@.height,
                    w4 == 4 * w,
                    stride == 4 * pw,
                    pos.x + pw <= w,
                    pos.y + ph <= h,
                    1 <= pw,
                    1 <= ph,
                    row < ph,
                    col <= stride,
                    self@.width == old(self)@.width,
                    self@.height == old(self)@.height,
                    self@.pixels.len() == old(self)@.pixels.len(),
                    forall|i: int|
                        0 <= i < self@.pixels.len() ==> #[trigger] self@.pixels[i]
                            == old(self)@.paint_pix_partial(
                            piece@,
                            pos.x as int,
                            pos.y as int,
                            row as int,
                            col as int,
                            i,
                        ),
                decreases stride - col,
            {
                proof {
                    lemma_addr_bound((pos.y + row) as int, (4 * pos.x + col) as int, w as int,
                        h as int);
                    lemma_row_major((pos.y + row) as int, (4 * pos.x + col) as int, w4 as int);
                    lemma_row_major(row as int, col as int, stride as int);
                    lemma_addr_bound(row as int, col as int, pw as int, ph as int);
                }
                let dst: usize = ((pos.y as usize) + row) * w4 + 4 * (pos.x as usize) + col;
                let srci: usize = row * stride + col;
                let byte = piece.pixels[srci];
                let ghost prev = self@.pixels;
                self.pixels.set(dst, byte);
                proof {
                    assert forall|i: int| 0 <= i < self@.pixels.len() implies self@.pixels[i]
                        == old(self)@.paint_pix_partial(
                        piece@,
                        pos.x as int,
                        pos.y as int,
                        row as int,
                        col as int + 1,
                        i,
                    ) by {
                        vstd::arithmetic::div_mod::lemma_fundamental_div_mod(i, w4 as int);
                        let r_i = i / (w4 as int);
                        let c_i = i % (w4 as int);
                        assert(i == (w4 as int) * r_i + c_i);
                        assert((w4 as int) * r_i == r_i * (w4 as int)) by (nonlinear_arith);
                        if i != dst {
                            assert(self@.pixels[i] == prev[i]);
                            if r_i == pos.y + row && c_i == 4 * pos.x + col {
                                assert(i == dst);
                                assert(false);
                            }
                        } else {
                            assert(r_i == pos.y + row && c_i == 4 * pos.x + col);
                        }
                    }
                }
                col += 1;
            }
            proof {
                assert forall|i: int| 0 <= i < self@.pixels.len() implies self@.pixels[i]
                    == old(self)@.paint_pix_partial(
                    piece@,
                    pos.x as int,
                    pos.y as int,
                    row as int + 1,
                    0,
                    i,
                ) by {
                    vstd::arithmetic::div_mod::lemma_fundamental_div_mod(i, w4 as int);
                }
            }
            row += 1;
        }
        proof {
            assert(self@.pixels =~= old(self)@.paint(piece@, pos.x as int, pos.y as int).pixels);
            assert(self@ =~= old(self)@.paint(piece@, pos.x as int, pos.y as int));
        }
    }
}

/// An image whose pixel dimensions were validated once, at construction,
/// against the size its consumer expects.
#[derive(Debug)]
pub struct SizedImage {
    image: Image,
}

impl View for SizedImage {
    type V = ImageModel;

    closed spec fn view(&self) -> ImageModel {
        self.image@
    }
}

impl Clone for SizedImage {
    /// Cloning preserves the pixel model exactly.
    fn clone(&self) -> (r: Self)
        ensures
            r@ == self@,
    {
        SizedImage { image: self.image.clone() }
    }
}

/// One tile cut out of an origin image, together with the pixel position it
/// was cut from.
#[derive(Debug)]
pub struct ImagePiece {
    pub image: SizedImage,
    pub position: Position,
}

impl Clone for ImagePiece {
    /// Cloning preserves the pixel model and position exactly.
    fn clone(&self) -> (r: Self)
        ensures
            r.image@ == self.image@,
            r.position == self.position,
    {
        ImagePiece { image: self.image.clone(), position: self.position }
    }
}

impl SizedImage {
    /// Accepts `image` only if its dimensions are exactly `expected`.
    pub fn new(image: Image, expected: Size) -> (r: Result<SizedImage, Error>)
        requires
            image@.wf(),
        ensures
            r is Ok <==> image@.width == expected.width && image@.height == expected.height,
            r matches Ok(s) ==> s@ == image@ && s@.wf(),
            r matches Err(e) ==> e == (Error::InvalidImageSize {
                expected_width: expected.width,
                expected_height: expected.height,
            }),
    {
        if image.width() == expected.width && image.height() == expected.height {
            Ok(SizedImage { image })
        } else {
            Err(Error::InvalidImageSize {
                expected_width: expected.width,
                expected_height: expected.height,
            })
        }
    }

    /// A fully transparent image of the given size.
    pub fn clear_image(size: Size) -> (r: SizedImage)
        requires
            4 * (size.width * size.height) <= usize::MAX,
        ensures
            r@.wf(),
            r@.width == size.width,
            r@.height == size.height,
            forall|i: int| 0 <= i < r@.pixels.len() ==> r@.pixels[i] == 0u8,
            r@.fully_transparent(),
    {
        SizedImage { image: Image::clear_image(size.width, size.height) }
    }

    pub fn size(&self) -> (s: Size)
        ensures
            s.width == self@.width,
            s.height == self@.height,
    {
        Size { width: self.image.width(), height: self.image.height() }
    }

    pub fn width(&self) -> (w: u32)
        ensures
            w == self@.width,
    {
        self.image.width()
    }

    pub fn height(&self) -> (h: u32)
        ensures
            h == self@.height,
    {
        self.image.height()
    }

    /// The raw RGBA bytes, row-major, four per pixel.
    pub fn as_bytes(&self) -> (r: &Vec<u8>)
        ensures
            r@ == self@.pixels,
    {
        self.image.as_bytes()
    }

    /// Mean grayscale value, scaled by 10000 and truncated.
    pub fn mean_grayscale(&self) -> (r: u64)
        requires
            self@.wf(),
            self@.pixel_count() > 0,
        ensures
            r == self@.mean_gray_scaled(),
            r <= 2550000,
    {
        self.image.mean_grayscale()
    }

    /// Mean alpha value, scaled by 10000 and truncated.
    pub fn mean_alpha(&self) -> (r: u64)
        requires
            self@.wf(),
            self@.pixel_count() > 0,
        ensures
            r == self@.mean_alpha_scaled(),
            r <= 2550000,
    {
        self.image.mean_alpha()
    }

    /// Whether every pixel has alpha 0.
    pub fn is_fully_transparent(&self) -> (r: bool)
        requires
            self@.wf(),
        ensures
            r <==> self@.fully_transparent(),
    {
        self.image.is_fully_transparent()
    }

    /// Extracts the `tile`-sized sub-rectangle whose top-left pixel is `pos`.
    pub fn crop(&self, pos: Position, tile: Size) -> (r: SizedImage)
        requires
            self@.wf(),
            pos.x + tile.width <= self@.width,
            pos.y + tile.height <= self@.height,
        ensures
            r@ == self@.crop(pos.x as int, pos.y as int, tile.width as int, tile.height as int),
            r@.wf(),
    {
        SizedImage { image: self.image.crop(pos, tile) }
    }

    /// Overwrites the rectangle at `pos` with `image`; no blending.
    pub fn overpaint_by(&mut self, image: &SizedImage, pos: Position)
        requires
            old(self)@.wf(),
            image@.wf(),
            pos.x + image@.width <= old(self)@.width,
            pos.y + image@.height <= old(self)@.height,
        ensures
            final(self)@ == old(self)@.paint(image@, pos.x as int, pos.y as int),
            final(self)@.wf(),
    {
        self.image.paint(&image.image, pos);
    }

    /// Splits the origin image into its `num_x * num_y` non-overlapping
    /// tiles, in row-major order.
    pub fn split_into_pieces(&self, grid: &Grid) -> (r: Vec<ImagePiece>)
        requires
            self@.wf(),
            grid.wf(),
            self@.width == grid.spec_origin().width,
            self@.height == grid.spec_origin().height,
            grid.spec_num_tiles() <= usize::MAX,
        ensures
            r@.len() == grid.spec_num_tiles(),
            forall|i: int|
                0 <= i < r@.len() ==> {
                    &&& (#[trigger] r@[i]).position.x == grid.spec_pos_x(i)
                    &&& r@[i].position.y == grid.spec_pos_y(i)
                    &&& r@[i].image@ == self@.crop(
                        grid.spec_pos_x(i),
                        grid.spec_pos_y(i),
                        grid.spec_tile().width as int,
                        grid.spec_tile().height as int,
                    )
                    &&& r@[i].image@.wf()
                },
    {
        let n64: u64 = grid.num_tiles();
        let n: usize = n64 as usize;
        let tile = grid.tile();
        let mut r: Vec<ImagePiece> = Vec::new();
        let mut idx: usize = 0;
        while idx < n
            invariant
                self@.wf(),
                grid.wf(),
                self@.width == grid.spec_origin().width,
                self@.height == grid.spec_origin().height,
                n == grid.spec_num_tiles(),
                tile == grid.spec_tile(),
                idx <= n,
                r@.len() == idx,
                forall|i: int|
                    0 <= i < idx ==> {
                        &&& (#[trigger] r@[i]).position.x == grid.spec_pos_x(i)
                        &&& r@[i].position.y == grid.spec_pos_y(i)
                        &&& r@[i].image@ == self@.crop(
                            grid.spec_pos_x(i),
                            grid.spec_pos_y(i),
                            grid.spec_tile().width as int,
                            grid.spec_tile().height as int,
                        )
                        &&& r@[i].image@.wf()
                    },
            decreases n - idx,
        {
            let pos = grid.index_to_pos(idx as u64);
            proof {
                grid.lemma_pos_in_bounds(idx as int);
            }
            let piece = self.crop(pos, tile);
            r.push(ImagePiece { image: piece, position: pos });
            idx += 1;
        }
        r
    }
}

/// If an accumulated sum of `n` terms each at most `per` is scaled by
/// `scale` and divided by `n`, the result is at most `per * scale`.
proof fn lemma_scaled_mean_bound(acc: int, n: int, per: int, scale: int)
    requires
        0 < n,
        0 <= acc <= per * n,
        0 < per,
        0 < scale,
    ensures
        0 <= acc * scale / n <= per * scale,
{
    assert(0 <= acc * scale / n <= per * scale) by (nonlinear_arith)
        requires
            0 < n,
            0 <= acc <= per * n,
            0 < per,
            0 < scale,
    ;
}

} // verus!
