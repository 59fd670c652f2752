//! Images made from nothing: a canvas of one colour, and the fractal
//! picture.

use crate::ops::EditError;
use crate::raster::{rgb_at, Image, Raster, Rgb};
use crate::text::{natural, parse_values, words};
use vstd::prelude::*;

verus! {

/// The width of a generated image.
pub const CANVAS_WIDTH: u32 = 800;

/// The height of a generated image.
pub const CANVAS_HEIGHT: u32 = 800;

/// The number of pixels of a generated image.
pub const CANVAS_PIXELS: usize = 640_000;

/// The canvas with every pixel of the colour `color`.
pub open spec fn solid_raster(color: Rgb) -> Raster<Rgb> {
    Raster {
        width: CANVAS_WIDTH as nat,
        height: CANVAS_HEIGHT as nat,
        pixels: Map::new(
            |p: (int, int)| 0 <= p.0 < CANVAS_WIDTH && 0 <= p.1 < CANVAS_HEIGHT,
            |p: (int, int)| color,
        ),
    }
}

/// What `generate` does with its argument: the first three numbers of
/// `values` are the red, green and blue channel.
pub open spec fn color_request(values: Seq<char>) -> Result<Rgb, EditError> {
    let ws = words(values);
    if exists|i: int| 0 <= i < ws.len() && (#[trigger] natural(ws[i], 255)).is_none() {
        Err(EditError::InvalidNumber)
    } else if ws.len() < 3 {
        Err(EditError::MissingValue)
    } else {
        Ok(
            Rgb {
                r: natural(ws[0], 255).unwrap() as u8,
                g: natural(ws[1], 255).unwrap() as u8,
                b: natural(ws[2], 255).unwrap() as u8,
            },
        )
    }
}

/// The background of the fractal picture at a coordinate: three tenths
/// of it, rounded down, and at most 255.
pub open spec fn gradient_level(coordinate: int) -> u8 {
    if 3 * coordinate / 10 > 255 {
        255u8
    } else {
        (3 * coordinate / 10) as u8
    }
}

/// The pixel of the fractal picture at index `j`, counted row by row.
pub open spec fn fractal_pixel(escape: Seq<u8>, j: int) -> Rgb {
    Rgb {
        r: gradient_level(j % (CANVAS_WIDTH as int)),
        g: escape[j],
        b: gradient_level(j / (CANVAS_WIDTH as int)),
    }
}

/// The fractal picture whose escape times are `escape`, row by row: red
/// rises with the column, blue with the row, and green is the escape time.
pub open spec fn fractal_raster(escape: Seq<u8>) -> Raster<Rgb> {
    Raster {
        width: CANVAS_WIDTH as nat,
        height: CANVAS_HEIGHT as nat,
        pixels: Map::new(
            |p: (int, int)| 0 <= p.0 < CANVAS_WIDTH && 0 <= p.1 < CANVAS_HEIGHT,
            |p: (int, int)|
                Rgb {
                    r: gradient_level(p.0),
                    g: escape[p.1 * CANVAS_WIDTH + p.0],
                    b: gradient_level(p.1),
                },
        ),
    }
}

/// The index of a pixel of the canvas, counted row by row, gives back its
/// column and row.
pub proof fn lemma_canvas_index(x: int, y: int)
    requires
        0 <= x < CANVAS_WIDTH,
        0 <= y < CANVAS_HEIGHT,
    ensures
        0 <= y * CANVAS_WIDTH + x < CANVAS_PIXELS,
        (y * CANVAS_WIDTH + x) % (CANVAS_WIDTH as int) == x,
        (y * CANVAS_WIDTH + x) / (CANVAS_WIDTH as int) == y,
{
}

/// A canvas of 800 by 800 pixels, each of the colour `color`.
pub fn solid(color: Rgb) -> (img: Image)
    ensures
        img@ == solid_raster(color),
{
    let mut data: Vec<u8> = Vec::new();
    let mut k: usize = 0;
    while k < CANVAS_PIXELS
        invariant
            k <= CANVAS_PIXELS,
            data@.len() == 3 * k,
            forall|j: int| 0 <= j < k ==> #[trigger] rgb_at(data@, j) == color,
        decreases CANVAS_PIXELS - k,
    {
        let ghost before = data@;
        data.push(color.r);
        data.push(color.g);
        data.push(color.b);
        k += 1;
        assert forall|j: int| 0 <= j < k implies #[trigger] rgb_at(data@, j) == color by {
            if j < k - 1 {
                assert(rgb_at(data@, j) == rgb_at(before, j));
            }
        }
    }
    let ghost bytes = data@;
    let made = Image::from_raw(CANVAS_WIDTH, CANVAS_HEIGHT, data);
    let img = made.unwrap();
    proof {
        let want = solid_raster(color);
        assert forall|p: (int, int)| #[trigger] want.pixels.dom().contains(p) implies img@.pixels[p]
            == color by {
            let j = p.1 * CANVAS_WIDTH + p.0;
            assert(0 <= j < CANVAS_PIXELS);
            assert(rgb_at(bytes, j) == color);
        }
        assert(img@.pixels =~= solid_raster(color).pixels);
    }
    img
}

/// A canvas of the colour that `values` names: three unsigned integers of
/// at most 255 (red, green, blue), separated by white space. Numbers after
/// the third are read and not used.
pub fn generate(values: &str) -> (r: Result<Image, EditError>)
    ensures
        match color_request(values@) {
            Ok(color) => r matches Ok(img) && img@ == solid_raster(color),
            Err(reason) => r matches Err(e) && e == reason,
        },
{
    match parse_values(values, 255) {
        None => Err(EditError::InvalidNumber),
        Some(v) => {
            if v.len() < 3 {
                Err(EditError::MissingValue)
            } else {
                Ok(solid(Rgb { r: v[0] as u8, g: v[1] as u8, b: v[2] as u8 }))
            }
        },
    }
}

/// The most that an escape time can be.
pub const ESCAPE_LIMIT: u8 = 255;

/// One turn of counting an escape time: while the orbit is `inside` the
/// circle and the count is below 255 the count goes up by one; otherwise
/// it stands, and is the escape time.
pub fn escape_step(count: u8, inside: bool) -> (next: Option<u8>)
    ensures
        next == if count < ESCAPE_LIMIT && inside {
            Some((count + 1) as u8)
        } else {
            None
        },
{
    if count < ESCAPE_LIMIT && inside {
        Some(count + 1)
    } else {
        None
    }
}

/// The background of the fractal picture at a coordinate.
pub fn gradient(coordinate: u32) -> (level: u8)
    ensures
        level == gradient_level(coordinate as int),
{
    let tenths: u64 = 3 * (coordinate as u64) / 10;
    if tenths > 255 {
        255
    } else {
        tenths as u8
    }
}

/// The fractal picture of 800 by 800 pixels, from the escape time of each
/// pixel, row by row. Any other number of escape times gives nothing.
pub fn fractal(escape: &Vec<u8>) -> (r: Option<Image>)
    ensures
        r.is_some() <==> escape@.len() == CANVAS_PIXELS,
        r matches Some(img) ==> img@ == fractal_raster(escape@),
{
    if escape.len() != CANVAS_PIXELS {
        return None;
    }
    let mut data: Vec<u8> = Vec::new();
    let mut y: u32 = 0;
    while y < CANVAS_HEIGHT
        invariant
            y <= CANVAS_HEIGHT,
            escape@.len() == CANVAS_PIXELS,
            data@.len() == 3 * (y * CANVAS_WIDTH),
            forall|j: int|
                0 <= j < y * CANVAS_WIDTH ==> #[trigger] rgb_at(data@, j) == fractal_pixel(
                    escape@,
                    j,
                ),
        decreases CANVAS_HEIGHT - y,
    {
        let blue: u8 = gradient(y);
        let mut x: u32 = 0;
        while x < CANVAS_WIDTH
            invariant
                y < CANVAS_HEIGHT,
                x <= CANVAS_WIDTH,
                blue == gradient_level(y as int),
                escape@.len() == CANVAS_PIXELS,
                data@.len() == 3 * (y * CANVAS_WIDTH + x),
                forall|j: int|
                    0 <= j < y * CANVAS_WIDTH + x ==> #[trigger] rgb_at(data@, j)
                        == fractal_pixel(escape@, j),
            decreases CANVAS_WIDTH - x,
        {
            let j: usize = (y * CANVAS_WIDTH + x) as usize;
            let ghost before = data@;
            data.push(gradient(x));
            data.push(escape[j]);
            data.push(blue);
            proof {
                lemma_canvas_index(x as int, y as int);
                assert(rgb_at(data@, j as int) == fractal_pixel(escape@, j as int));
            }
            x += 1;
            assert forall|i: int| 0 <= i < y * CANVAS_WIDTH + x implies #[trigger] rgb_at(data@, i)
                == fractal_pixel(escape@, i) by {
                if i < j {
                    assert(rgb_at(data@, i) == rgb_at(before, i));
                }
            }
        }
        y += 1;
    }
    let ghost bytes = data@;
    let made = Image::from_raw(CANVAS_WIDTH, CANVAS_HEIGHT, data);
    let img = made.unwrap();
    proof {
        let want = fractal_raster(escape@);
        assert forall|p: (int, int)| #[trigger] want.pixels.dom().contains(p) implies img@.pixels[p]
            == want.pixels[p] by {
            let j = p.1 * CANVAS_WIDTH + p.0;
            lemma_canvas_index(p.0, p.1);
            assert(rgb_at(bytes, j) == fractal_pixel(escape@, j));
        }
        assert(img@.pixels =~= fractal_raster(escape@).pixels);
    }
    Some(img)
}

} // verus!
