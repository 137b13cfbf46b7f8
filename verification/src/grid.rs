//! The sampling grid: which pixel is sampled when, and at which point of the
//! complex plane.
//!
//! An image of `size` by `size` pixels samples the square `[-R, R)` by
//! `[-R, R)`, where `R` is the half-range, in steps of `2R / size`. The point
//! of pixel `(x, y)` is therefore `R` times `((2x - size) / size,
//! (2y - size) / size)`. The library keeps the two numerators, which are
//! integers; the half-range itself is a real number and stays with the caller.

use vstd::prelude::*;

verus! {

/// A point of the sampling grid, in units of `R / size`: the point sampled is
/// `R * re / size + i * R * im / size`.
#[derive(Clone, Copy, Debug, PartialEq, Eq, Structural)]
pub struct LatticePoint {
    pub re: i64,
    pub im: i64,
}

/// Whether `(x, y)` names a pixel of an image of `size` by `size` pixels.
pub open spec fn in_grid(x: int, y: int, size: int) -> bool {
    0 <= x < size && 0 <= y < size
}

/// Row-major position of pixel `(x, y)`: rows come one after the other, and
/// row 0 holds the samples with the most negative imaginary part.
pub open spec fn spec_pixel_index(x: int, y: int, size: int) -> int {
    y * size + x
}

/// Column of the pixel at a row-major position.
pub open spec fn spec_pixel_x(index: int, size: int) -> int {
    index % size
}

/// Row of the pixel at a row-major position.
pub open spec fn spec_pixel_y(index: int, size: int) -> int {
    index / size
}

/// Numerator of one coordinate of a sample: `2k - size` for column or row `k`.
pub open spec fn spec_offset(k: int, size: int) -> int {
    2 * k - size
}

/// The lattice point sampled by pixel `(x, y)`.
pub open spec fn spec_sample(x: int, y: int, size: int) -> (int, int) {
    (spec_offset(x, size), spec_offset(y, size))
}

/// The lattice points of the whole grid, in row-major order.
pub open spec fn spec_grid(size: int) -> Seq<(int, int)> {
    Seq::new(
        (size * size) as nat,
        |i: int| spec_sample(spec_pixel_x(i, size), spec_pixel_y(i, size), size),
    )
}

impl LatticePoint {
    /// The point as a pair of mathematical integers.
    pub open spec fn view(&self) -> (int, int) {
        (self.re as int, self.im as int)
    }
}

/// Number of pixels, and so of samples, of an image of `size` by `size`.
pub fn pixel_count(size: u32) -> (count: u64)
    ensures
        count == size * size,
{
    proof {
        assert(size * size <= 0xFFFF_FFFF * 0xFFFF_FFFF) by (nonlinear_arith)
            requires
                0 <= size <= 0xFFFF_FFFF,
        ;
    }
    let wide: u64 = size as u64;
    wide * wide
}

/// Row-major position of pixel `(x, y)`.
pub fn pixel_index(x: u32, y: u32, size: u32) -> (index: u64)
    requires
        in_grid(x as int, y as int, size as int),
    ensures
        index == spec_pixel_index(x as int, y as int, size as int),
        index < size * size,
{
    proof {
        lemma_index_in_range(x as int, y as int, size as int);
        assert(size * size <= 0xFFFF_FFFF * 0xFFFF_FFFF) by (nonlinear_arith)
            requires
                0 <= size <= 0xFFFF_FFFF,
        ;
        assert(0 <= y * size) by (nonlinear_arith)
            requires
                0 <= y,
                0 <= size,
        ;
        assert(y * size <= size * size) by (nonlinear_arith)
            requires
                0 <= y < size,
        ;
    }
    let row_start: u64 = (y as u64) * (size as u64);
    row_start + (x as u64)
}

/// The pixel at a row-major position, as `(x, y)`.
pub fn pixel_at(index: u64, size: u32) -> (pixel: (u32, u32))
    requires
        index < size * size,
    ensures
        pixel.0 == spec_pixel_x(index as int, size as int),
        pixel.1 == spec_pixel_y(index as int, size as int),
        in_grid(pixel.0 as int, pixel.1 as int, size as int),
{
    proof {
        assert(size > 0) by (nonlinear_arith)
            requires
                0 <= size,
                0 <= index < size * size,
        ;
        lemma_coordinates_in_range(index as int, size as int);
    }
    let wide: u64 = size as u64;
    let x: u64 = index % wide;
    let y: u64 = index / wide;
    (x as u32, y as u32)
}

/// The lattice point sampled by pixel `(x, y)`.
pub fn sample(x: u32, y: u32, size: u32) -> (point: LatticePoint)
    requires
        in_grid(x as int, y as int, size as int),
    ensures
        point@ == spec_sample(x as int, y as int, size as int),
{
    let re: i64 = 2 * (x as i64) - (size as i64);
    let im: i64 = 2 * (y as i64) - (size as i64);
    LatticePoint { re, im }
}

/// A pixel's row-major position lies below the number of pixels.
pub proof fn lemma_index_in_range(x: int, y: int, size: int)
    requires
        in_grid(x, y, size),
    ensures
        0 <= spec_pixel_index(x, y, size) < size * size,
{
    assert(0 <= y * size) by (nonlinear_arith)
        requires
            0 <= y,
            0 <= size,
    ;
    assert(y * size + size <= size * size) by (nonlinear_arith)
        requires
            0 <= y < size,
    ;
}

/// The coordinates read off a row-major position name a pixel of the grid.
pub proof fn lemma_coordinates_in_range(index: int, size: int)
    requires
        0 < size,
        0 <= index < size * size,
    ensures
        in_grid(spec_pixel_x(index, size), spec_pixel_y(index, size), size),
{
    vstd::arithmetic::div_mod::lemma_fundamental_div_mod(index, size);
    vstd::arithmetic::div_mod::lemma_mod_bound(index, size);
    let q = index / size;
    assert(0 <= q) by (nonlinear_arith)
        requires
            0 <= index,
            size > 0,
            q == index / size,
    ;
    assert(q < size) by (nonlinear_arith)
        requires
            index == size * q + index % size,
            0 <= index % size,
            index < size * size,
            size > 0,
    ;
}

/// Reading the coordinates off a pixel's row-major position gives the pixel
/// back.
pub proof fn lemma_index_round_trip(x: int, y: int, size: int)
    requires
        in_grid(x, y, size),
    ensures
        spec_pixel_x(spec_pixel_index(x, y, size), size) == x,
        spec_pixel_y(spec_pixel_index(x, y, size), size) == y,
{
    vstd::arithmetic::div_mod::lemma_fundamental_div_mod_converse(
        spec_pixel_index(x, y, size),
        size,
        y,
        x,
    );
}

/// The pixel read off a row-major position stands at that position.
pub proof fn lemma_position_round_trip(index: int, size: int)
    requires
        0 < size,
        0 <= index < size * size,
    ensures
        spec_pixel_index(spec_pixel_x(index, size), spec_pixel_y(index, size), size) == index,
{
    vstd::arithmetic::div_mod::lemma_fundamental_div_mod(index, size);
    assert(size * (index / size) == (index / size) * size) by (nonlinear_arith);
}

/// Two pixels that sample the same lattice point are one pixel.
pub proof fn lemma_samples_distinct(x1: int, y1: int, x2: int, y2: int, size: int)
    requires
        spec_sample(x1, y1, size) == spec_sample(x2, y2, size),
    ensures
        x1 == x2,
        y1 == y2,
{
}

/// The grid of a `size` by `size` image has `size * size` lattice points, and
/// no two of them are equal.
pub proof fn lemma_grid_points_distinct(size: int)
    requires
        0 < size,
    ensures
        spec_grid(size).len() == size * size,
        spec_grid(size).no_duplicates(),
{
    assert(0 < size * size) by (nonlinear_arith)
        requires
            0 < size,
    ;
    let grid = spec_grid(size);
    assert forall|i: int, j: int| 0 <= i < grid.len() && 0 <= j < grid.len() && i != j implies grid[i]
        != grid[j] by {
        if grid[i] == grid[j] {
            lemma_samples_distinct(
                spec_pixel_x(i, size),
                spec_pixel_y(i, size),
                spec_pixel_x(j, size),
                spec_pixel_y(j, size),
                size,
            );
            lemma_position_round_trip(i, size);
            lemma_position_round_trip(j, size);
        }
    }
}

/// Every lattice point of the grid is the sample of the pixel at its
/// position, and lies in the square from `-size` up to, not including, `size`.
pub proof fn lemma_grid_point(index: int, size: int)
    requires
        0 < size,
        0 <= index < size * size,
    ensures
        spec_grid(size)[index] == spec_sample(
            spec_pixel_x(index, size),
            spec_pixel_y(index, size),
            size,
        ),
        -size <= spec_grid(size)[index].0 < size,
        -size <= spec_grid(size)[index].1 < size,
{
    lemma_coordinates_in_range(index, size);
}

/// The coordinate of column or row `k` lies on the line `-R + k * step`, with
/// `step = 2R / size`. Stated for a half-range `R` that is a whole number,
/// with both sides multiplied by `size`: the left side is `size` times
/// `R * (2k - size) / size`.
pub proof fn lemma_sample_on_line(k: int, size: int, range: int)
    ensures
        range * spec_offset(k, size) == size * (-range) + k * (2 * range),
{
    assert(range * (2 * k - size) == size * (-range) + k * (2 * range)) by (nonlinear_arith);
}

/// Neighbouring columns, and neighbouring rows, lie one step apart everywhere
/// on the grid: two units of the lattice.
pub proof fn lemma_step_is_constant(k: int, size: int)
    ensures
        spec_offset(k + 1, size) - spec_offset(k, size) == 2,
{
}

/// The first sample of the grid is `(-R, -R)`, and the last one is
/// `(R - step, R - step)`: in the lattice, `(-size, -size)` and
/// `(size - 2, size - 2)`, one step being two units.
pub proof fn lemma_grid_corners(size: int)
    requires
        0 < size,
    ensures
        spec_sample(0, 0, size) == (-size, -size),
        spec_sample(size - 1, size - 1, size) == (size - 2, size - 2),
        spec_grid(size).first() == spec_sample(0, 0, size),
        spec_grid(size).last() == spec_sample(size - 1, size - 1, size),
{
    assert(0 < size * size) by (nonlinear_arith)
        requires
            0 < size,
    ;
    lemma_index_in_range(size - 1, size - 1, size);
    lemma_index_round_trip(0, 0, size);
    lemma_index_round_trip(size - 1, size - 1, size);
    assert(spec_pixel_index(0, 0, size) == 0);
    assert(spec_pixel_index(size - 1, size - 1, size) == size * size - 1) by (nonlinear_arith)
        requires
            spec_pixel_index(size - 1, size - 1, size) == (size - 1) * size + (size - 1),
    ;
}

} // verus!
