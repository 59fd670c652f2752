//! Pixel grids: the executable `Image` and its mathematical model `Raster`.

use vstd::prelude::*;

verus! {

/// One pixel: three 8-bit channels.
#[derive(Clone, Copy, Debug, PartialEq, Eq, Structural)]
pub struct Rgb {
    pub r: u8,
    pub g: u8,
    pub b: u8,
}

/// The mathematical model of an image: its dimensions and the pixel at
/// each coordinate `(x, y)`, `x` counting columns from the left and `y`
/// rows from the top.
pub struct Raster<P> {
    pub width: nat,
    pub height: nat,
    pub pixels: Map<(int, int), P>,
}

impl<P> Raster<P> {
    /// Whether `(x, y)` lies inside the grid.
    pub open spec fn contains(self, x: int, y: int) -> bool {
        0 <= x < self.width && 0 <= y < self.height
    }

    /// A raster is well formed when it has a pixel exactly at the
    /// coordinates inside the grid.
    pub open spec fn wf(self) -> bool {
        forall|p: (int, int)| #[trigger] self.pixels.dom().contains(p) <==> self.contains(p.0, p.1)
    }

    /// The pixel at `(x, y)`.
    pub open spec fn at(self, x: int, y: int) -> P {
        self.pixels[(x, y)]
    }
}

/// The pixel that the bytes `data` hold at index `i`, three bytes (red,
/// green, blue) per pixel.
pub open spec fn rgb_at(data: Seq<u8>, i: int) -> Rgb {
    Rgb { r: data[3 * i], g: data[3 * i + 1], b: data[3 * i + 2] }
}

/// The raster that the bytes `data` hold when read row by row, three
/// bytes (red, green, blue) per pixel.
pub open spec fn rgb_raster(width: nat, height: nat, data: Seq<u8>) -> Raster<Rgb> {
    Raster {
        width,
        height,
        pixels: Map::new(
            |p: (int, int)| 0 <= p.0 < width && 0 <= p.1 < height,
            |p: (int, int)| rgb_at(data, p.1 * width + p.0),
        ),
    }
}

/// The index of pixel `(x, y)`, counted row by row, stays inside the grid.
pub proof fn lemma_pixel_index(x: int, y: int, width: int, height: int)
    requires
        0 <= x < width,
        0 <= y < height,
    ensures
        0 <= y * width + x < width * height,
{
    assert(y * width >= 0) by (nonlinear_arith)
        requires
            y >= 0,
            width >= 0,
    ;
    assert((y + 1) * width <= height * width) by (nonlinear_arith)
        requires
            y + 1 <= height,
            width >= 0,
    ;
    assert((y + 1) * width == y * width + width) by (nonlinear_arith);
    assert(height * width == width * height) by (nonlinear_arith);
}

/// An RGB image with 8 bits per channel, stored row by row.
#[derive(Debug, PartialEq, Eq)]
pub struct Image {
    pub(crate) width: u32,
    pub(crate) height: u32,
    pub(crate) data: Vec<u8>,
}

impl View for Image {
    type V = Raster<Rgb>;

    closed spec fn view(&self) -> Raster<Rgb> {
        rgb_raster(self.width as nat, self.height as nat, self.data@)
    }
}

impl Clone for Image {
    fn clone(&self) -> (copy: Image)
        ensures
            copy@ == self@,
            copy.bytes() == self.bytes(),
    {
        proof {
            use_type_invariant(self);
        }
        let data = self.data.clone();
        assert(data@ =~= self.data@);
        Image { width: self.width, height: self.height, data }
    }
}

impl Image {
    #[verifier::type_invariant]
    closed spec fn inv(&self) -> bool {
        self.data@.len() == 3 * (self.width * self.height)
    }

    /// The bytes of the image, row by row, three per pixel.
    pub closed spec fn bytes(&self) -> Seq<u8> {
        self.data@
    }

    /// Every image is a well-formed raster, the one that its bytes hold.
    pub proof fn lemma_view(&self)
        ensures
            self@.wf(),
            self@ == rgb_raster(self@.width, self@.height, self.bytes()),
            self@.width <= u32::MAX,
            self@.height <= u32::MAX,
    {
    }

    /// Builds an image from its dimensions and bytes. The buffer must hold
    /// exactly three bytes per pixel.
    pub fn from_raw(width: u32, height: u32, data: Vec<u8>) -> (r: Option<Image>)
        ensures
            r.is_some() <==> data@.len() == 3 * (width * height),
            r matches Some(img) ==> img@ == rgb_raster(width as nat, height as nat, data@)
                && img.bytes() == data@,
    {
        let count: u64 = pixel_count(width, height);
        let len: u64 = data.len() as u64;
        if len % 3 == 0 && len / 3 == count {
            Some(Image { width, height, data })
        } else {
            None
        }
    }

    /// The number of columns.
    pub fn width(&self) -> (w: u32)
        ensures
            w == self@.width,
    {
        self.width
    }

    /// The number of rows.
    pub fn height(&self) -> (h: u32)
        ensures
            h == self@.height,
    {
        self.height
    }

    /// The pixel at column `x` of row `y`.
    pub fn get_pixel(&self, x: u32, y: u32) -> (p: Rgb)
        requires
            self@.contains(x as int, y as int),
        ensures
            p == self@.at(x as int, y as int),
    {
        proof {
            use_type_invariant(self);
            lemma_pixel_index(x as int, y as int, self.width as int, self.height as int);
        }
        let len: usize = self.data.len();
        let row: u64 = pixel_count(y, self.width);
        assert(3 * (row + x) + 2 < len);
        let i: usize = (3 * (row + x as u64)) as usize;
        Rgb { r: self.data[i], g: self.data[i + 1], b: self.data[i + 2] }
    }

    /// The bytes of the image, row by row, three per pixel.
    pub fn as_raw(&self) -> (data: &Vec<u8>)
        ensures
            data@ == self.bytes(),
            data@.len() == 3 * (self@.width * self@.height),
    {
        proof {
            use_type_invariant(self);
        }
        &self.data
    }

    /// Gives up the image for its bytes.
    pub fn into_raw(self) -> (data: Vec<u8>)
        ensures
            data@ == self.bytes(),
            data@.len() == 3 * (self@.width * self@.height),
    {
        proof {
            use_type_invariant(&self);
        }
        self.data
    }
}

/// The raster that the bytes `data` hold when read row by row, one byte
/// per pixel.
pub open spec fn gray_raster(width: nat, height: nat, data: Seq<u8>) -> Raster<u8> {
    Raster {
        width,
        height,
        pixels: Map::new(
            |p: (int, int)| 0 <= p.0 < width && 0 <= p.1 < height,
            |p: (int, int)| data[p.1 * width + p.0],
        ),
    }
}

/// A grayscale image with 8 bits per pixel, stored row by row.
#[derive(Debug, PartialEq, Eq)]
pub struct GrayImage {
    pub(crate) width: u32,
    pub(crate) height: u32,
    pub(crate) data: Vec<u8>,
}

impl View for GrayImage {
    type V = Raster<u8>;

    closed spec fn view(&self) -> Raster<u8> {
        gray_raster(self.width as nat, self.height as nat, self.data@)
    }
}

impl Clone for GrayImage {
    fn clone(&self) -> (copy: GrayImage)
        ensures
            copy@ == self@,
            copy.bytes() == self.bytes(),
    {
        proof {
            use_type_invariant(self);
        }
        let data = self.data.clone();
        assert(data@ =~= self.data@);
        GrayImage { width: self.width, height: self.height, data }
    }
}

impl GrayImage {
    #[verifier::type_invariant]
    closed spec fn inv(&self) -> bool {
        self.data@.len() == self.width * self.height
    }

    /// The bytes of the image, row by row, one per pixel.
    pub closed spec fn bytes(&self) -> Seq<u8> {
        self.data@
    }

    /// Every image is a well-formed raster, the one that its bytes hold.
    pub proof fn lemma_view(&self)
        ensures
            self@.wf(),
            self@ == gray_raster(self@.width, self@.height, self.bytes()),
            self@.width <= u32::MAX,
            self@.height <= u32::MAX,
    {
    }

    /// Builds an image from its dimensions and bytes. The buffer must hold
    /// exactly one byte per pixel.
    pub fn from_raw(width: u32, height: u32, data: Vec<u8>) -> (r: Option<GrayImage>)
        ensures
            r.is_some() <==> data@.len() == width * height,
            r matches Some(img) ==> img@ == gray_raster(width as nat, height as nat, data@)
                && img.bytes() == data@,
    {
        let count: u64 = pixel_count(width, height);
        if data.len() as u64 == count {
            Some(GrayImage { width, height, data })
        } else {
            None
        }
    }

    /// The number of columns.
    pub fn width(&self) -> (w: u32)
        ensures
            w == self@.width,
    {
        self.width
    }

    /// The number of rows.
    pub fn height(&self) -> (h: u32)
        ensures
            h == self@.height,
    {
        self.height
    }

    /// The pixel at column `x` of row `y`.
    pub fn get_pixel(&self, x: u32, y: u32) -> (p: u8)
        requires
            self@.contains(x as int, y as int),
        ensures
            p == self@.at(x as int, y as int),
    {
        proof {
            use_type_invariant(self);
            lemma_pixel_index(x as int, y as int, self.width as int, self.height as int);
        }
        let len: usize = self.data.len();
        let row: u64 = pixel_count(y, self.width);
        assert(row + x < len);
        let i: usize = (row + x as u64) as usize;
        self.data[i]
    }

    /// The bytes of the image, row by row, one per pixel.
    pub fn as_raw(&self) -> (data: &Vec<u8>)
        ensures
            data@ == self.bytes(),
            data@.len() == self@.width * self@.height,
    {
        proof {
            use_type_invariant(self);
        }
        &self.data
    }

    /// Gives up the image for its bytes.
    pub fn into_raw(self) -> (data: Vec<u8>)
        ensures
            data@ == self.bytes(),
            data@.len() == self@.width * self@.height,
    {
        proof {
            use_type_invariant(&self);
        }
        self.data
    }
}

/// `width * height`, which always fits in 64 bits.
pub fn pixel_count(width: u32, height: u32) -> (n: u64)
    ensures
        n == width * height,
{
    assert(width * height <= 0xffff_ffff * 0xffff_ffff) by (nonlinear_arith)
        requires
            0 <= width <= 0xffff_ffff,
            0 <= height <= 0xffff_ffff,
    ;
    width as u64 * height as u64
}

} // verus!
