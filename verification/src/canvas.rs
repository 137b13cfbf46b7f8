//! The pixel buffer. It is an `image::RgbImage`, kept behind a small set of
//! operations whose contracts say what the library relies on.

use vstd::prelude::*;

verus! {

/// One pixel: red, green and blue, eight bits each.
pub type Rgb8 = (u8, u8, u8);

/// An `image::RgbImage`. The verifier does not look inside it: what it holds
/// is known only through [`canvas_extent`] and [`canvas_pixels`], and only as
/// far as the operations below say.
#[verifier::external_body]
pub struct Canvas {
    image: image::RgbImage,
}

/// Width and height of a canvas, in pixels.
pub uninterp spec fn canvas_extent(canvas: Canvas) -> (nat, nat);

/// The pixels of a canvas, row after row, each row from left to right.
pub uninterp spec fn canvas_pixels(canvas: Canvas) -> Seq<Rgb8>;

/// Position of the pixel in column `x` of row `y` among the pixels of an
/// image that is `width` pixels wide.
pub open spec fn pixel_position(x: int, y: int, width: int) -> int {
    y * width + x
}

/// The channel values of a run of pixels: three for each pixel, red first.
pub open spec fn channel_values(pixels: Seq<Rgb8>) -> Seq<u8> {
    Seq::new(
        3 * pixels.len(),
        |i: int|
            if i % 3 == 0 {
                pixels[i / 3].0
            } else if i % 3 == 1 {
                pixels[i / 3].1
            } else {
                pixels[i / 3].2
            },
    )
}

/// `image::ImageBuffer::new`: an image of the given extent in which every
/// channel of every pixel is zero. The outside function panics when the
/// number of channel values does not fit a vector, which `requires` excludes.
#[verifier::external_body]
pub(crate) fn blank_canvas(width: u32, height: u32) -> (canvas: Canvas)
    requires
        3 * width * height <= isize::MAX,
    ensures
        canvas_extent(canvas) == (width as nat, height as nat),
        canvas_pixels(canvas) == Seq::new((width * height) as nat, |i: int| (0u8, 0u8, 0u8)),
{
    Canvas { image: image::ImageBuffer::new(width, height) }
}

/// `image::ImageBuffer::put_pixel`: the pixel in column `x` of row `y` becomes
/// `(r, g, b)`, and nothing else changes. The outside function panics when
/// `(x, y)` lies outside the image, which `requires` excludes.
#[verifier::external_body]
pub(crate) fn put_pixel(canvas: &mut Canvas, x: u32, y: u32, r: u8, g: u8, b: u8)
    requires
        x < canvas_extent(*old(canvas)).0,
        y < canvas_extent(*old(canvas)).1,
    ensures
        canvas_extent(*final(canvas)) == canvas_extent(*old(canvas)),
        canvas_pixels(*final(canvas)) == canvas_pixels(*old(canvas)).update(
            pixel_position(x as int, y as int, canvas_extent(*old(canvas)).0 as int),
            (r, g, b),
        ),
{
    canvas.image.put_pixel(x, y, image::Rgb([r, g, b]))
}

/// `image::ImageBuffer::into_raw`: the channel values of the image, in the
/// order of its pixels.
#[verifier::external_body]
pub(crate) fn into_channel_values(canvas: Canvas) -> (bytes: Vec<u8>)
    ensures
        bytes@ == channel_values(canvas_pixels(canvas)),
{
    canvas.image.into_raw()
}

} // verus!
