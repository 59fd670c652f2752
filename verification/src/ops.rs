//! The transformations of an image: what each does to a raster, the calls
//! that carry them out, and the laws that hold of them.
//!
//! The pixels are moved and recoloured by the `image` crate. Each call
//! into it hands over the bytes of an `Image` as an `image::RgbImage`,
//! which keeps them in the same layout (row by row, three bytes per
//! pixel), and takes the bytes of the result back. What the crate does is
//! not proved here: the contract of each such call states it.

use crate::raster::{GrayImage, Image, Raster, Rgb};
use crate::text::{natural, parse_i32, parse_values, parsed_i32, words};
use vstd::prelude::*;

verus! {

/// Why a transformation was not carried out.
#[derive(Clone, Copy, Debug, PartialEq, Eq, Structural)]
pub enum EditError {
    /// An argument is not a decimal integer of the expected range.
    InvalidNumber,
    /// An argument holds fewer numbers than the operation takes.
    MissingValue,
    /// The region to cut out does not lie inside the image.
    OutOfBounds,
}

impl<P> Raster<P> {
    /// The raster turned a quarter clockwise: the left column becomes the
    /// top row.
    pub open spec fn rotated90(self) -> Raster<P> {
        Raster {
            width: self.height,
            height: self.width,
            pixels: Map::new(
                |p: (int, int)| 0 <= p.0 < self.height && 0 <= p.1 < self.width,
                |p: (int, int)| self.pixels[(p.1, self.height - 1 - p.0)],
            ),
        }
    }

    /// The raster turned upside down.
    pub open spec fn rotated180(self) -> Raster<P> {
        Raster {
            width: self.width,
            height: self.height,
            pixels: Map::new(
                |p: (int, int)| 0 <= p.0 < self.width && 0 <= p.1 < self.height,
                |p: (int, int)| self.pixels[(self.width - 1 - p.0, self.height - 1 - p.1)],
            ),
        }
    }

    /// The raster turned three quarters clockwise: the top row becomes the
    /// left column, read upwards.
    pub open spec fn rotated270(self) -> Raster<P> {
        Raster {
            width: self.height,
            height: self.width,
            pixels: Map::new(
                |p: (int, int)| 0 <= p.0 < self.height && 0 <= p.1 < self.width,
                |p: (int, int)| self.pixels[(self.width - 1 - p.1, p.0)],
            ),
        }
    }

    /// The raster turned clockwise by `degrees`, where that is 90, 180 or
    /// 270.
    pub open spec fn turned(self, degrees: int) -> Option<Raster<P>> {
        if degrees == 90 {
            Some(self.rotated90())
        } else if degrees == 180 {
            Some(self.rotated180())
        } else if degrees == 270 {
            Some(self.rotated270())
        } else {
            None
        }
    }

    /// Whether the region of `width` by `height` pixels with its top left
    /// corner at `(x, y)` lies inside the raster.
    pub open spec fn holds_region(self, x: int, y: int, width: int, height: int) -> bool {
        x + width <= self.width && y + height <= self.height
    }

    /// The region of `width` by `height` pixels with its top left corner at
    /// `(x, y)`.
    pub open spec fn cropped(self, x: int, y: int, width: nat, height: nat) -> Raster<P> {
        Raster {
            width,
            height,
            pixels: Map::new(
                |p: (int, int)| 0 <= p.0 < width && 0 <= p.1 < height,
                |p: (int, int)| self.pixels[(x + p.0, y + p.1)],
            ),
        }
    }
}

/// A channel made brighter by `value`, or darker where `value` is
/// negative, and kept within 8 bits.
pub open spec fn brightened_channel(c: u8, value: int) -> u8 {
    if c + value < 0 {
        0u8
    } else if c + value > 255 {
        255u8
    } else {
        (c + value) as u8
    }
}

/// The brightness of a pixel: its channels weighted 2126 : 7152 : 722.
pub open spec fn luma(p: Rgb) -> u8 {
    ((2126 * p.r + 7152 * p.g + 722 * p.b) / 10000) as u8
}

impl Raster<Rgb> {
    /// The raster with every channel made brighter by `value`.
    pub open spec fn brightened(self, value: int) -> Raster<Rgb> {
        Raster {
            width: self.width,
            height: self.height,
            pixels: Map::new(
                |p: (int, int)| 0 <= p.0 < self.width && 0 <= p.1 < self.height,
                |p: (int, int)|
                    Rgb {
                        r: brightened_channel(self.pixels[p].r, value),
                        g: brightened_channel(self.pixels[p].g, value),
                        b: brightened_channel(self.pixels[p].b, value),
                    },
            ),
        }
    }

    /// The negative: every channel `c` becomes `255 - c`.
    pub open spec fn inverted(self) -> Raster<Rgb> {
        Raster {
            width: self.width,
            height: self.height,
            pixels: Map::new(
                |p: (int, int)| 0 <= p.0 < self.width && 0 <= p.1 < self.height,
                |p: (int, int)|
                    Rgb {
                        r: (255 - self.pixels[p].r) as u8,
                        g: (255 - self.pixels[p].g) as u8,
                        b: (255 - self.pixels[p].b) as u8,
                    },
            ),
        }
    }

    /// The brightness of every pixel.
    pub open spec fn grayscaled(self) -> Raster<u8> {
        Raster {
            width: self.width,
            height: self.height,
            pixels: Map::new(
                |p: (int, int)| 0 <= p.0 < self.width && 0 <= p.1 < self.height,
                |p: (int, int)| luma(self.pixels[p]),
            ),
        }
    }
}

/// Calls `image::DynamicImage::brighten` on an RGB image, which is
/// `image::imageops::brighten`: the result has the same dimensions, and
/// each channel is the old one plus `value`, clamped to `0..=255`. The
/// sum is taken in 32 bits, so `value` must leave room for a channel. The
/// crate walks the pixels with an iterator that reads past the end of an
/// image without columns, so the image must have one.
#[verifier::external_body]
fn image_brighten(img: &Image, value: i32) -> (out: Image)
    requires
        value + 255 <= i32::MAX,
        img@.width > 0,
    ensures
        out@ == img@.brightened(value as int),
{
    let buf = image::RgbImage::from_raw(img.width, img.height, img.data.clone()).unwrap();
    let out = image::DynamicImage::ImageRgb8(buf).brighten(value).into_rgb8();
    Image { width: out.width(), height: out.height(), data: out.into_raw() }
}

/// Calls `image::DynamicImage::crop` on an RGB image, which copies the
/// view that `image::imageops::crop` returns: for a region inside the
/// image, the result has the region's dimensions and holds its pixels.
#[verifier::external_body]
fn image_crop(img: &Image, x: u32, y: u32, width: u32, height: u32) -> (out: Image)
    requires
        img@.holds_region(x as int, y as int, width as int, height as int),
    ensures
        out@ == img@.cropped(x as int, y as int, width as nat, height as nat),
{
    let buf = image::RgbImage::from_raw(img.width, img.height, img.data.clone()).unwrap();
    let out = image::DynamicImage::ImageRgb8(buf).crop(x, y, width, height).into_rgb8();
    Image { width: out.width(), height: out.height(), data: out.into_raw() }
}

/// Calls `image::DynamicImage::rotate90` on an RGB image, which is
/// `image::imageops::rotate90`: the pixel at `(x, y)` moves to
/// `(height - 1 - y, x)` of a result with the dimensions exchanged.
#[verifier::external_body]
fn image_rotate90(img: &Image) -> (out: Image)
    ensures
        out@ == img@.rotated90(),
{
    let buf = image::RgbImage::from_raw(img.width, img.height, img.data.clone()).unwrap();
    let out = image::DynamicImage::ImageRgb8(buf).rotate90().into_rgb8();
    Image { width: out.width(), height: out.height(), data: out.into_raw() }
}

/// Calls `image::DynamicImage::rotate180` on an RGB image, which is
/// `image::imageops::rotate180`: the pixel at `(x, y)` moves to
/// `(width - 1 - x, height - 1 - y)` of a result with the same dimensions.
#[verifier::external_body]
fn image_rotate180(img: &Image) -> (out: Image)
    ensures
        out@ == img@.rotated180(),
{
    let buf = image::RgbImage::from_raw(img.width, img.height, img.data.clone()).unwrap();
    let out = image::DynamicImage::ImageRgb8(buf).rotate180().into_rgb8();
    Image { width: out.width(), height: out.height(), data: out.into_raw() }
}

/// Calls `image::DynamicImage::rotate270` on an RGB image, which is
/// `image::imageops::rotate270`: the pixel at `(x, y)` moves to
/// `(y, width - 1 - x)` of a result with the dimensions exchanged.
#[verifier::external_body]
fn image_rotate270(img: &Image) -> (out: Image)
    ensures
        out@ == img@.rotated270(),
{
    let buf = image::RgbImage::from_raw(img.width, img.height, img.data.clone()).unwrap();
    let out = image::DynamicImage::ImageRgb8(buf).rotate270().into_rgb8();
    Image { width: out.width(), height: out.height(), data: out.into_raw() }
}

/// Calls `image::DynamicImage::invert` on an RGB image, which is
/// `image::imageops::invert`: the dimensions stay, and every channel `c`
/// becomes `255 - c`.
#[verifier::external_body]
fn image_invert(img: &Image) -> (out: Image)
    ensures
        out@ == img@.inverted(),
{
    let buf = image::RgbImage::from_raw(img.width, img.height, img.data.clone()).unwrap();
    let mut dynamic = image::DynamicImage::ImageRgb8(buf);
    dynamic.invert();
    let out = dynamic.into_rgb8();
    Image { width: out.width(), height: out.height(), data: out.into_raw() }
}

/// Calls `image::DynamicImage::grayscale` on an RGB image, which is
/// `image::imageops::grayscale`: the result has the same dimensions and
/// one channel, `(2126 r + 7152 g + 722 b) / 10000` of each pixel. The
/// crate walks the pixels with an iterator that reads past the end of an
/// image without columns, so the image must have one.
#[verifier::external_body]
fn image_grayscale(img: &Image) -> (out: GrayImage)
    requires
        img@.width > 0,
    ensures
        out@ == img@.grayscaled(),
{
    let buf = image::RgbImage::from_raw(img.width, img.height, img.data.clone()).unwrap();
    let out = image::DynamicImage::ImageRgb8(buf).grayscale().into_luma8();
    GrayImage { width: out.width(), height: out.height(), data: out.into_raw() }
}

/// Brightening by more than 255 either way changes nothing further.
pub proof fn lemma_brightened_saturates(p: Raster<Rgb>, value: int)
    ensures
        value >= 255 ==> p.brightened(value) == p.brightened(255),
        value <= -255 ==> p.brightened(value) == p.brightened(-255),
{
    if value >= 255 {
        assert(p.brightened(value).pixels =~= p.brightened(255).pixels);
    }
    if value <= -255 {
        assert(p.brightened(value).pixels =~= p.brightened(-255).pixels);
    }
}

/// Makes every channel brighter by `value`, or darker where it is
/// negative; a channel stops at 0 and at 255. An image without pixels is
/// returned as it is.
pub fn brighten_by(img: &Image, value: i32) -> (out: Image)
    ensures
        out@ == img@.brightened(value as int),
{
    let bounded: i32 = if value > 255 {
        255
    } else if value < -255 {
        -255
    } else {
        value
    };
    proof {
        lemma_brightened_saturates(img@, value as int);
    }
    if img.width() == 0 {
        let out = img.clone();
        proof {
            img.lemma_view();
            assert(out@.pixels =~= img@.brightened(value as int).pixels);
        }
        out
    } else {
        image_brighten(img, bounded)
    }
}

/// Brightens by the amount that `amount` denotes, a 32-bit signed
/// integer.
pub fn brighten(img: &Image, amount: &str) -> (r: Result<Image, EditError>)
    ensures
        match parsed_i32(amount@) {
            Some(v) => r matches Ok(out) && out@ == img@.brightened(v as int),
            None => r matches Err(e) && e == EditError::InvalidNumber,
        },
{
    match parse_i32(amount) {
        Some(v) => Ok(brighten_by(img, v)),
        None => Err(EditError::InvalidNumber),
    }
}

/// Cuts out the region of `width` by `height` pixels with its top left
/// corner at `(x, y)`. A region that reaches beyond the image is refused.
pub fn crop_region(img: &Image, x: u32, y: u32, width: u32, height: u32) -> (r: Result<
    Image,
    EditError,
>)
    ensures
        match r {
            Ok(out) => img@.holds_region(x as int, y as int, width as int, height as int)
                && out@ == img@.cropped(x as int, y as int, width as nat, height as nat)
                && out@.width == width && out@.height == height,
            Err(e) => !img@.holds_region(x as int, y as int, width as int, height as int)
                && e == EditError::OutOfBounds,
        },
{
    if x as u64 + width as u64 <= img.width() as u64 && y as u64 + height as u64
        <= img.height() as u64 {
        Ok(image_crop(img, x, y, width, height))
    } else {
        Err(EditError::OutOfBounds)
    }
}

/// What `crop` does with its argument: the first four numbers of `values`
/// are `x`, `y`, `width` and `height`.
pub open spec fn crop_request(values: Seq<char>) -> Result<(u32, u32, u32, u32), EditError> {
    let ws = words(values);
    if exists|i: int| 0 <= i < ws.len() && (#[trigger] natural(ws[i], u32::MAX as int)).is_none() {
        Err(EditError::InvalidNumber)
    } else if ws.len() < 4 {
        Err(EditError::MissingValue)
    } else {
        Ok(
            (
                natural(ws[0], u32::MAX as int).unwrap() as u32,
                natural(ws[1], u32::MAX as int).unwrap() as u32,
                natural(ws[2], u32::MAX as int).unwrap() as u32,
                natural(ws[3], u32::MAX as int).unwrap() as u32,
            ),
        )
    }
}

/// Cuts out the region that `values` names: four unsigned integers `x`,
/// `y`, `width`, `height`, separated by white space. Numbers after the
/// fourth are read and not used.
pub fn crop(img: &Image, values: &str) -> (r: Result<Image, EditError>)
    ensures
        match crop_request(values@) {
            Ok((x, y, width, height)) => if img@.holds_region(
                x as int,
                y as int,
                width as int,
                height as int,
            ) {
                r matches Ok(out) && out@ == img@.cropped(
                    x as int,
                    y as int,
                    width as nat,
                    height as nat,
                )
            } else {
                r matches Err(e) && e == EditError::OutOfBounds
            },
            Err(reason) => r matches Err(e) && e == reason,
        },
{
    match parse_values(values, u32::MAX) {
        None => Err(EditError::InvalidNumber),
        Some(v) => {
            if v.len() < 4 {
                Err(EditError::MissingValue)
            } else {
                crop_region(img, v[0], v[1], v[2], v[3])
            }
        },
    }
}

/// Turns the image clockwise by 90, 180 or 270 degrees. Any other angle
/// gives nothing.
pub fn rotate_by(img: &Image, degrees: i32) -> (r: Option<Image>)
    ensures
        r.is_some() <==> degrees == 90 || degrees == 180 || degrees == 270,
        r matches Some(out) ==> img@.turned(degrees as int) == Some(out@),
{
    if degrees == 90 {
        Some(image_rotate90(img))
    } else if degrees == 180 {
        Some(image_rotate180(img))
    } else if degrees == 270 {
        Some(image_rotate270(img))
    } else {
        None
    }
}

/// Turns the image by the angle that `amount` denotes, a 32-bit signed
/// integer.
pub fn rotate(img: &Image, amount: &str) -> (r: Result<Option<Image>, EditError>)
    ensures
        match parsed_i32(amount@) {
            Some(v) => r matches Ok(turned) && (turned.is_some() <==> v == 90 || v == 180 || v
                == 270) && (turned matches Some(out) ==> img@.turned(v as int) == Some(out@)),
            None => r matches Err(e) && e == EditError::InvalidNumber,
        },
{
    match parse_i32(amount) {
        Some(v) => Ok(rotate_by(img, v)),
        None => Err(EditError::InvalidNumber),
    }
}

/// Replaces the image by its negative.
pub fn invert(img: &mut Image)
    ensures
        final(img)@ == old(img)@.inverted(),
{
    let out = image_invert(img);
    *img = out;
}

/// The brightness of every pixel, as a grayscale image. An image
/// without pixels gives one without pixels, of the same dimensions.
pub fn grayscale(img: &Image) -> (out: GrayImage)
    ensures
        out@ == img@.grayscaled(),
{
    if img.width() == 0 {
        let made = GrayImage::from_raw(0, img.height(), Vec::new());
        let out = made.unwrap();
        proof {
            assert(out@.pixels =~= img@.grayscaled().pixels);
        }
        out
    } else {
        image_grayscale(img)
    }
}

/// Four quarter turns bring every pixel back to its place.
pub proof fn lemma_rotate90_four_times<P>(p: Raster<P>)
    requires
        p.wf(),
    ensures
        p.rotated90().rotated90().rotated90().rotated90() == p,
{
    let q = p.rotated90().rotated90().rotated90().rotated90();
    assert(q.pixels =~= p.pixels);
}

/// The negative of the negative is the image itself.
pub proof fn lemma_invert_twice(p: Raster<Rgb>)
    requires
        p.wf(),
    ensures
        p.inverted().inverted() == p,
{
    let q = p.inverted().inverted();
    assert(q.pixels =~= p.pixels);
}

} // verus!
