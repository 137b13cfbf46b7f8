use std::collections::HashSet;

use domain_coloring::grid::{pixel_at, pixel_count, pixel_index, sample, LatticePoint};

fn coordinate(units: i64, size: u32, range: f64) -> f64 {
    range * units as f64 / size as f64
}

#[test]
fn first_sample_is_the_most_negative_corner() {
    assert_eq!(sample(0, 0, 4), LatticePoint { re: -4, im: -4 });
    assert_eq!(sample(0, 0, 512), LatticePoint { re: -512, im: -512 });
    assert_eq!(sample(0, 0, 1), LatticePoint { re: -1, im: -1 });
}

#[test]
fn last_sample_is_one_step_short_of_the_range() {
    assert_eq!(sample(3, 3, 4), LatticePoint { re: 2, im: 2 });
    assert_eq!(sample(511, 511, 512), LatticePoint { re: 510, im: 510 });
    assert_eq!(sample(0, 0, 1), LatticePoint { re: -1, im: -1 });
}

#[test]
fn sample_keeps_real_and_imaginary_axes_apart() {
    assert_eq!(sample(1, 2, 4), LatticePoint { re: -2, im: 0 });
    assert_eq!(sample(2, 1, 4), LatticePoint { re: 0, im: -2 });
    assert_eq!(sample(3, 0, 4), LatticePoint { re: 2, im: -4 });
}

#[test]
fn sample_handles_the_largest_image() {
    let size = u32::MAX;
    assert_eq!(
        sample(size - 1, 0, size),
        LatticePoint { re: 4294967293, im: -4294967295 }
    );
}

#[test]
fn corners_match_the_sampling_formula() {
    let cases: [(u32, f64); 4] = [(4, 1.0), (2, 2.0), (512, 1.0), (10, 0.5)];
    for (size, range) in cases {
        let step = 2.0 * range / size as f64;
        let first = sample(0, 0, size);
        assert!((coordinate(first.re, size, range) + range).abs() < 1e-12);
        assert!((coordinate(first.im, size, range) + range).abs() < 1e-12);
        let last = sample(size - 1, size - 1, size);
        assert!((coordinate(last.re, size, range) - (range - step)).abs() < 1e-12);
        assert!((coordinate(last.im, size, range) - (range - step)).abs() < 1e-12);
    }
}

#[test]
fn every_sample_lies_on_the_line_of_its_column() {
    let size: u32 = 8;
    let range = 1.5;
    let step = 2.0 * range / size as f64;
    for y in 0..size {
        for x in 0..size {
            let point = sample(x, y, size);
            assert!((coordinate(point.re, size, range) - (-range + step * x as f64)).abs() < 1e-12);
            assert!((coordinate(point.im, size, range) - (-range + step * y as f64)).abs() < 1e-12);
        }
    }
}

#[test]
fn grid_has_size_squared_distinct_samples() {
    for size in [1u32, 2, 3, 7, 16] {
        let mut seen = HashSet::new();
        for y in 0..size {
            for x in 0..size {
                let point = sample(x, y, size);
                assert!(seen.insert((point.re, point.im)));
            }
        }
        assert_eq!(seen.len() as u64, pixel_count(size));
    }
}

#[test]
fn pixel_count_is_the_square_of_the_size() {
    assert_eq!(pixel_count(0), 0);
    assert_eq!(pixel_count(1), 1);
    assert_eq!(pixel_count(4), 16);
    assert_eq!(pixel_count(512), 262144);
    assert_eq!(pixel_count(65536), 4294967296);
    assert_eq!(pixel_count(u32::MAX), 18446744065119617025);
}

#[test]
fn pixel_index_is_row_major() {
    assert_eq!(pixel_index(0, 0, 4), 0);
    assert_eq!(pixel_index(3, 0, 4), 3);
    assert_eq!(pixel_index(0, 1, 4), 4);
    assert_eq!(pixel_index(1, 2, 4), 9);
    assert_eq!(pixel_index(3, 3, 4), 15);
    assert_eq!(pixel_index(65535, 65535, 65536), 4294967295);
}

#[test]
fn pixel_at_reads_column_then_row() {
    assert_eq!(pixel_at(0, 4), (0, 0));
    assert_eq!(pixel_at(3, 4), (3, 0));
    assert_eq!(pixel_at(4, 4), (0, 1));
    assert_eq!(pixel_at(9, 4), (1, 2));
    assert_eq!(pixel_at(15, 4), (3, 3));
    assert_eq!(pixel_at(0, 1), (0, 0));
}

#[test]
fn pixel_index_and_pixel_at_undo_each_other() {
    for size in [1u32, 2, 5, 9] {
        for index in 0..pixel_count(size) {
            let (x, y) = pixel_at(index, size);
            assert!(x < size && y < size);
            assert_eq!(pixel_index(x, y, size), index);
        }
        for y in 0..size {
            for x in 0..size {
                assert_eq!(pixel_at(pixel_index(x, y, size), size), (x, y));
            }
        }
    }
}
