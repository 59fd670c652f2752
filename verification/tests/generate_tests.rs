use imgedit::generate::{
    escape_step, fractal, generate, gradient, solid, CANVAS_HEIGHT, CANVAS_PIXELS, CANVAS_WIDTH,
};
use imgedit::ops::EditError;
use imgedit::raster::Rgb;

fn escape_time(x: u32, y: u32) -> u8 {
    let scale_x = 3.0 / CANVAS_WIDTH as f32;
    let scale_y = 3.0 / CANVAS_HEIGHT as f32;
    let cx = y as f32 * scale_x - 1.5;
    let cy = x as f32 * scale_y - 1.5;
    let c = num_complex::Complex::new(-0.4f32, 0.6f32);
    let mut z = num_complex::Complex::new(cx, cy);
    let mut green = 0u8;
    while let Some(next) = escape_step(green, z.norm() <= 2.0) {
        z = z * z + c;
        green = next;
    }
    green
}

#[test]
fn escape_step_counts_while_inside() {
    assert_eq!(escape_step(0, true), Some(1));
    assert_eq!(escape_step(0, false), None);
    assert_eq!(escape_step(17, true), Some(18));
    assert_eq!(escape_step(17, false), None);
    assert_eq!(escape_step(254, true), Some(255));
    assert_eq!(escape_step(255, true), None);
    assert_eq!(escape_step(255, false), None);
}

#[test]
fn escape_time_is_that_of_the_plain_loop() {
    for (x, y) in [(0, 0), (400, 400), (250, 610), (650, 100), (799, 799), (399, 401), (5, 790)] {
        let scale = 3.0 / 800 as f32;
        let c = num_complex::Complex::new(-0.4f32, 0.6f32);
        let mut z = num_complex::Complex::new(y as f32 * scale - 1.5, x as f32 * scale - 1.5);
        let mut green = 0u8;
        while green < 255 && z.norm() <= 2.0 {
            z = z * z + c;
            green += 1;
        }
        assert_eq!(escape_time(x, y), green, "({}, {})", x, y);
    }
}

#[test]
fn solid_fills_the_canvas() {
    let color = Rgb { r: 12, g: 200, b: 77 };
    let img = solid(color);
    assert_eq!((img.width(), img.height()), (800, 800));
    assert_eq!(img.as_raw().len(), 3 * 800 * 800);
    for y in 0..800 {
        for x in 0..800 {
            assert_eq!(img.get_pixel(x, y), color);
        }
    }
}

#[test]
fn generate_reads_three_channels() {
    let img = generate("255 0 128").unwrap();
    assert_eq!((img.width(), img.height()), (800, 800));
    assert_eq!(img.get_pixel(0, 0), Rgb { r: 255, g: 0, b: 128 });
    assert_eq!(img.get_pixel(799, 799), Rgb { r: 255, g: 0, b: 128 });
    assert_eq!(img.get_pixel(400, 13), Rgb { r: 255, g: 0, b: 128 });
    assert_eq!(generate(" 1\t+2\n003 4 5 "), Ok(solid(Rgb { r: 1, g: 2, b: 3 })));
    assert_eq!(generate("0 0 0"), Ok(solid(Rgb { r: 0, g: 0, b: 0 })));
}

#[test]
fn generate_refuses_a_bad_colour() {
    assert_eq!(generate("255 0"), Err(EditError::MissingValue));
    assert_eq!(generate("7"), Err(EditError::MissingValue));
    assert_eq!(generate(""), Err(EditError::MissingValue));
    assert_eq!(generate("256 0 0"), Err(EditError::InvalidNumber));
    assert_eq!(generate("0 0 -1"), Err(EditError::InvalidNumber));
    assert_eq!(generate("red green blue"), Err(EditError::InvalidNumber));
    assert_eq!(generate("1 2 3 300"), Err(EditError::InvalidNumber));
    assert_eq!(generate("1 x"), Err(EditError::InvalidNumber));
    assert_eq!(generate("1,2,3"), Err(EditError::InvalidNumber));
}

#[test]
fn gradient_is_three_tenths_rounded_down() {
    assert_eq!(gradient(0), 0);
    assert_eq!(gradient(1), 0);
    assert_eq!(gradient(3), 0);
    assert_eq!(gradient(4), 1);
    assert_eq!(gradient(10), 3);
    assert_eq!(gradient(799), 239);
    assert_eq!(gradient(850), 255);
    assert_eq!(gradient(853), 255);
    assert_eq!(gradient(854), 255);
    assert_eq!(gradient(100_000), 255);
    assert_eq!(gradient(u32::MAX), 255);
}

#[test]
fn gradient_is_the_floating_point_formula_on_the_canvas() {
    for x in 0..2000u32 {
        assert_eq!(gradient(x), (0.3 * x as f32) as u8, "{}", x);
    }
}

#[test]
fn fractal_wants_one_escape_time_per_pixel() {
    assert_eq!(CANVAS_PIXELS, 640_000);
    assert!(fractal(&vec![0; 640_000]).is_some());
    assert!(fractal(&vec![0; 639_999]).is_none());
    assert!(fractal(&vec![0; 640_001]).is_none());
    assert!(fractal(&vec![]).is_none());
}

#[test]
fn fractal_lays_green_over_the_gradient() {
    let escape: Vec<u8> = (0..640_000u32).map(|j| (j % 251) as u8).collect();
    let img = fractal(&escape).unwrap();
    assert_eq!((img.width(), img.height()), (800, 800));
    for (x, y) in [(0, 0), (1, 0), (0, 1), (799, 0), (0, 799), (799, 799), (123, 456), (10, 20)] {
        let want = Rgb {
            r: (3 * x / 10) as u8,
            g: ((y * 800 + x) % 251) as u8,
            b: (3 * y / 10) as u8,
        };
        assert_eq!(img.get_pixel(x, y), want, "({}, {})", x, y);
    }
    assert_eq!(img.get_pixel(10, 20), Rgb { r: 3, g: 197, b: 6 });
}

#[test]
fn fractal_corner_has_escaped_at_once() {
    // At pixel (0, 0) the orbit starts at (-1.5, -1.5), outside the circle of radius 2.
    assert_eq!(escape_time(0, 0), 0);
    let mut escape = Vec::with_capacity(640_000);
    for y in 0..800 {
        for x in 0..800 {
            escape.push(escape_time(x, y));
        }
    }
    let img = fractal(&escape).unwrap();
    assert_eq!(img.get_pixel(0, 0), Rgb { r: 0, g: 0, b: 0 });
    assert_eq!(img.get_pixel(799, 799), Rgb { r: 239, g: escape_time(799, 799), b: 239 });
    for (x, y) in [(400, 400), (250, 610), (650, 100)] {
        let p = img.get_pixel(x, y);
        assert_eq!(p.g, escape_time(x, y));
        assert_eq!((p.r, p.b), ((0.3 * x as f32) as u8, (0.3 * y as f32) as u8));
    }
}
