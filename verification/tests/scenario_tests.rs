use domain_coloring::grid::sample;
use domain_coloring::mode::ColorMode;
use domain_coloring::render::{render_with, Outcome};
use hsl::HSL;
use image::RgbImage;

fn point(x: u32, y: u32, size: u32, range: f64) -> (f64, f64) {
    let lattice = sample(x, y, size);
    (
        range * lattice.re as f64 / size as f64,
        range * lattice.im as f64 / size as f64,
    )
}

fn argument_modulus(re: f64, im: f64) -> HSL {
    let h = (im.atan2(re).to_degrees() + 360.0) % 360.0;
    let l = (1.0 - 2.0f64.powf(-re.hypot(im))) * 0.5;
    HSL { h, s: 1.0, l }
}

fn grid_line(re: f64, im: f64) -> HSL {
    let hx = -((re - re.round()).abs() + 0.001).ln();
    let hy = -((im - im.round()).abs() + 0.001).ln();
    HSL { h: 360.0 - (hx + hy) * 20.0, s: 1.0, l: 0.5 }
}

fn color(mode: ColorMode, re: f64, im: f64) -> HSL {
    match mode {
        ColorMode::ArgumentModulus => argument_modulus(re, im),
        ColorMode::GridLine => grid_line(re, im),
    }
}

#[test]
fn identity_with_argument_and_modulus() {
    let size = 4;
    let range = 1.0;
    let mode = ColorMode::from_selector(1);
    assert_eq!(point(0, 0, size, range), (-1.0, -1.0));
    let corner = color(mode, -1.0, -1.0);
    assert!((corner.h - 225.0).abs() < 1e-9);
    assert_eq!(corner.s, 1.0);
    assert!((corner.l - (1.0 - 2.0f64.powf(-(2.0f64.sqrt()))) / 2.0).abs() < 1e-12);
    assert!((corner.l - 0.315).abs() < 0.005);

    let bytes = render_with(size, |x, y| {
        let (re, im) = point(x, y, size, range);
        Outcome::Colored(color(mode, re, im).to_rgb())
    })
    .unwrap();
    let image = RgbImage::from_raw(size, size, bytes).unwrap();
    assert_eq!(image.dimensions(), (4, 4));
    assert_eq!(image.get_pixel(0, 0).0, [0, 40, 159]);
    let (r, g, b) = corner.to_rgb();
    assert_eq!(image.get_pixel(0, 0).0, [r, g, b]);
    // The sample of pixel (2, 2) is the origin: lightness 0, which is black.
    assert_eq!(point(2, 2, size, range), (0.0, 0.0));
    assert_eq!(image.get_pixel(2, 2).0, [0, 0, 0]);
    for y in 0..size {
        for x in 0..size {
            let (re, im) = point(x, y, size, range);
            let (r, g, b) = color(mode, re, im).to_rgb();
            assert_eq!(image.get_pixel(x, y).0, [r, g, b]);
        }
    }
}

#[test]
fn square_with_grid_lines() {
    let size = 2;
    let range = 2.0;
    let mode = ColorMode::from_selector(2);
    let square = |re: f64, im: f64| (re * re - im * im, 2.0 * re * im);
    assert_eq!(point(0, 0, size, range), (-2.0, -2.0));
    assert_eq!(point(1, 0, size, range), (0.0, -2.0));
    assert_eq!(point(0, 1, size, range), (-2.0, 0.0));
    assert_eq!(point(1, 1, size, range), (0.0, 0.0));
    assert_eq!(square(-2.0, -2.0), (0.0, 8.0));
    assert_eq!(square(0.0, -2.0), (-4.0, -0.0));
    assert_eq!(square(-2.0, 0.0), (4.0, -0.0));

    // Every value has whole real and imaginary parts, so both terms are at
    // their largest, -ln(0.001), and the hue is 360 - 2 * 20 * ln(1000).
    let hue = 360.0 - 40.0 * 1000.0f64.ln();
    assert!((hue - 83.6898).abs() < 1e-4);
    for (re, im) in [(0.0, 8.0), (-4.0, 0.0), (4.0, 0.0), (0.0, 0.0)] {
        let mapped = color(mode, re, im);
        assert!((mapped.h - hue).abs() < 1e-9);
        assert!(0.0 <= mapped.h && mapped.h < 360.0);
        assert_eq!(mapped.s, 1.0);
        assert_eq!(mapped.l, 0.5);
    }

    let bytes = render_with(size, |x, y| {
        let (re, im) = point(x, y, size, range);
        let (re, im) = square(re, im);
        Outcome::Colored(color(mode, re, im).to_rgb())
    })
    .unwrap();
    assert_eq!(
        bytes,
        vec![154, 255, 0, 154, 255, 0, 154, 255, 0, 154, 255, 0]
    );
}
