//! The RGBA pixel buffer of the `image` crate, as the rest of the library sees it.
//!
//! `Raster` holds an `image::RgbaImage`; every operation on the pixels goes
//! through the buffer's own methods. Its contents are named by `raster_size`
//! and `raster_pixels`, and the methods below state what each call does to them.
use vstd::prelude::*;
use image::{RgbImage, RgbaImage};

verus! {

/// An RGBA image with 8 bits per channel.
#[verifier::external_body]
pub struct Raster {
    pub image: RgbaImage,
}

/// One RGBA pixel, channels in the order red, green, blue, alpha.
pub type Rgba8 = (u8, u8, u8, u8);

/// An RGB image with 8 bits per channel, as JPEG files take it.
#[verifier::external_body]
pub struct RgbRaster {
    pub image: RgbImage,
}

/// One RGB pixel, channels in the order red, green, blue.
pub type Rgb8 = (u8, u8, u8);

/// Width and height of an RGB buffer.
pub uninterp spec fn rgb_size(r: RgbRaster) -> (u32, u32);

/// The pixels of an RGB buffer, keyed by `(x, y)`.
pub uninterp spec fn rgb_pixels(r: RgbRaster) -> Map<(u32, u32), Rgb8>;

/// The pixel of an RGB buffer at `(x, y)`.
pub open spec fn rgb_pixel_at(r: RgbRaster, x: int, y: int) -> Rgb8 {
    rgb_pixels(r)[(x as u32, y as u32)]
}

/// `c` is `img` with the alpha channel dropped: same size, and each pixel keeps its
/// red, green and blue.
pub open spec fn is_opaque_copy(c: RgbRaster, img: Raster) -> bool {
    &&& rgb_size(c) == raster_size(img)
    &&& forall|x: int, y: int|
        in_bounds(width_of(img), height_of(img), x, y) ==> #[trigger] rgb_pixel_at(c, x, y) == (
            pixel_at(img, x, y).0,
            pixel_at(img, x, y).1,
            pixel_at(img, x, y).2,
        )
}

/// Width and height the buffer was made with.
pub uninterp spec fn raster_size(r: Raster) -> (u32, u32);

/// The pixels of the buffer, keyed by `(x, y)`.
pub uninterp spec fn raster_pixels(r: Raster) -> Map<(u32, u32), Rgba8>;

/// Width of an image.
pub open spec fn width_of(r: Raster) -> u32 {
    raster_size(r).0
}

/// Height of an image.
pub open spec fn height_of(r: Raster) -> u32 {
    raster_size(r).1
}

/// The pixel at `(x, y)`.
pub open spec fn pixel_at(r: Raster, x: int, y: int) -> Rgba8 {
    raster_pixels(r)[(x as u32, y as u32)]
}

/// The pixel that a freshly allocated buffer holds everywhere.
pub open spec fn zero_pixel() -> Rgba8 {
    (0u8, 0u8, 0u8, 0u8)
}

/// Whether `(x, y)` lies inside an image of size `w` by `h`.
pub open spec fn in_bounds(w: u32, h: u32, x: int, y: int) -> bool {
    0 <= x < w && 0 <= y < h
}

/// A buffer of size `w` by `h` can be allocated: the length of one row, `4 * w`, fits
/// in a `usize` (it is computed first), and the byte length `4 * w * h` is at most
/// `isize::MAX`, the largest a `Vec` can hold.
pub open spec fn buffer_fits(w: u32, h: u32) -> bool {
    &&& 4 * (w as int) <= usize::MAX
    &&& 4 * (w as int) * (h as int) <= isize::MAX
}

impl Raster {
    /// `RgbaImage::new`: a buffer of the given size, every pixel zero.
    /// It panics when `4 * width` or `4 * width * height` overflows `usize`, and when
    /// the byte length is more than a `Vec` can hold.
    #[verifier::external_body]
    pub fn blank(width: u32, height: u32) -> (r: Raster)
        requires
            buffer_fits(width, height),
        ensures
            raster_size(r) == (width, height),
            forall|x: int, y: int|
                in_bounds(width, height, x, y) ==> #[trigger] pixel_at(r, x, y) == zero_pixel(),
    {
        Raster { image: RgbaImage::new(width, height) }
    }

    /// `RgbaImage::width`.
    #[verifier::external_body]
    pub fn width(&self) -> (w: u32)
        ensures
            w == width_of(*self),
    {
        self.image.width()
    }

    /// `RgbaImage::height`.
    #[verifier::external_body]
    pub fn height(&self) -> (h: u32)
        ensures
            h == height_of(*self),
    {
        self.image.height()
    }

    /// `RgbaImage::get_pixel`, read as a tuple. It panics outside the image.
    #[verifier::external_body]
    pub fn get_pixel(&self, x: u32, y: u32) -> (p: Rgba8)
        requires
            in_bounds(width_of(*self), height_of(*self), x as int, y as int),
        ensures
            p == pixel_at(*self, x as int, y as int),
    {
        let px = self.image.get_pixel(x, y);
        (px[0], px[1], px[2], px[3])
    }

    /// `RgbaImage::put_pixel`: the pixel at `(x, y)` becomes `p`, all else stays.
    /// It panics outside the image.
    #[verifier::external_body]
    pub fn put_pixel(&mut self, x: u32, y: u32, p: Rgba8)
        requires
            in_bounds(width_of(*old(self)), height_of(*old(self)), x as int, y as int),
        ensures
            raster_size(*final(self)) == raster_size(*old(self)),
            raster_pixels(*final(self)) == raster_pixels(*old(self)).insert((x, y), p),
    {
        self.image.put_pixel(x, y, image::Rgba([p.0, p.1, p.2, p.3]));
    }

    /// `image::imageops::crop_imm(..).to_image()` on a window that lies inside the image:
    /// a new buffer of size `w` by `h` whose pixel `(i, j)` is the pixel `(x + i, y + j)`.
    /// The new buffer is made by `RgbaImage::new`, with its panics.
    #[verifier::external_body]
    pub fn crop(&self, x: u32, y: u32, w: u32, h: u32) -> (r: Raster)
        requires
            x + w <= width_of(*self),
            y + h <= height_of(*self),
            buffer_fits(w, h),
        ensures
            raster_size(r) == (w, h),
            forall|i: int, j: int|
                in_bounds(w, h, i, j) ==> #[trigger] pixel_at(r, i, j) == pixel_at(
                    *self,
                    x + i,
                    y + j,
                ),
    {
        Raster { image: image::imageops::crop_imm(&self.image, x, y, w, h).to_image() }
    }
}

impl Raster {
    /// `DynamicImage::ImageRgba8(..).to_rgb8()` on a copy of the buffer: an RGB buffer
    /// of the same size whose pixels keep red, green and blue, the alpha dropped
    /// (image 0.25 casts RGBA8 to RGB8 channel by channel).
    #[verifier::external_body]
    pub(crate) fn without_alpha(&self) -> (r: RgbRaster)
        ensures
            rgb_size(r) == raster_size(*self),
            forall|x: int, y: int|
                in_bounds(width_of(*self), height_of(*self), x, y) ==> #[trigger] rgb_pixels(r)[(
                    x as u32,
                    y as u32,
                )] == (pixel_at(*self, x, y).0, pixel_at(*self, x, y).1, pixel_at(*self, x, y).2),
    {
        RgbRaster { image: image::DynamicImage::ImageRgba8(self.image.clone()).to_rgb8() }
    }
}

/// After `put_pixel(x, y, p)`, the pixel at `(x, y)` is `p` and every other pixel
/// inside the image is what it was.
pub proof fn lemma_put_pixel(before: Raster, after: Raster, x: u32, y: u32, p: Rgba8)
    requires
        raster_pixels(after) == raster_pixels(before).insert((x, y), p),
    ensures
        forall|xx: int, yy: int|
            in_bounds(width_of(before), height_of(before), xx, yy) ==> #[trigger] pixel_at(
                after,
                xx,
                yy,
            ) == if xx == x && yy == y {
                p
            } else {
                pixel_at(before, xx, yy)
            },
{
    assert forall|xx: int, yy: int|
        in_bounds(width_of(before), height_of(before), xx, yy) implies #[trigger] pixel_at(
            after,
            xx,
            yy,
        ) == if xx == x && yy == y {
            p
        } else {
            pixel_at(before, xx, yy)
        } by {
        let k = (xx as u32, yy as u32);
        assert(k.0 == xx && k.1 == yy);
        if xx == x && yy == y {
            assert(k == (x, y));
        } else {
            assert(k != (x, y));
        }
    }
}

/// Two images are the same picture: same size and same pixels inside it.
pub open spec fn same_picture(a: Raster, b: Raster) -> bool {
    &&& raster_size(a) == raster_size(b)
    &&& forall|x: int, y: int|
        in_bounds(width_of(a), height_of(a), x, y) ==> #[trigger] pixel_at(a, x, y) == pixel_at(
            b,
            x,
            y,
        )
}

} // verus!
