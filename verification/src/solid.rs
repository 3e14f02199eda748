//! Pictures of one colour.

use vstd::prelude::*;
use crate::buffer::{dimensions_fit, lemma_raster_extensional, PixelBuffer, Raster};
use crate::color::Rgb;

verus! {

/// `raster` is a dense grid of the given dimensions in which every pixel
/// shows `color`.
pub open spec fn is_solid(raster: Raster, width: u32, height: u32, color: Rgb) -> bool {
    &&& raster.well_formed()
    &&& raster.width == width
    &&& raster.height == height
    &&& forall|x: int, y: int| raster.contains(x, y) ==> #[trigger] raster.pixel(x, y) == color
}

/// Paints a `width` by `height` buffer in one colour.
///
/// A dimension of zero gives a buffer without pixels. The dimensions have to
/// fit, see `PixelBuffer::fits`.
pub fn generate(width: u32, height: u32, color: Rgb) -> (image: PixelBuffer)
    requires
        dimensions_fit(width, height),
    ensures
        is_solid(image@, width, height, color),
{
    let mut image = PixelBuffer::new(width, height);
    let mut y: u32 = 0;
    while y < height
        invariant
            y <= height,
            image@.well_formed(),
            image@.width == width,
            image@.height == height,
            forall|u: int, v: int|
                0 <= u < width && 0 <= v < y ==> #[trigger] image@.pixel(u, v) == color,
        decreases height - y,
    {
        let mut x: u32 = 0;
        while x < width
            invariant
                y < height,
                x <= width,
                image@.well_formed(),
                image@.width == width,
                image@.height == height,
                forall|u: int, v: int|
                    0 <= u < width && 0 <= v < y ==> #[trigger] image@.pixel(u, v) == color,
                forall|u: int| 0 <= u < x ==> #[trigger] image@.pixel(u, y as int) == color,
            decreases width - x,
        {
            image.put_pixel(x, y, color);
            x += 1;
        }
        y += 1;
    }
    image
}

/// Paints the buffer if its dimensions fit, and gives `None` if they do not.
/// Nothing is asked of the dimensions.
pub fn try_generate(width: u32, height: u32, color: Rgb) -> (image: Option<PixelBuffer>)
    ensures
        image.is_some() == dimensions_fit(width, height),
        image.is_some() ==> is_solid(image.unwrap()@, width, height, color),
{
    if PixelBuffer::fits(width, height) {
        Some(generate(width, height, color))
    } else {
        None
    }
}

/// A solid picture is determined by its dimensions and its colour.
pub proof fn lemma_solid_unique(first: Raster, second: Raster, width: u32, height: u32, color: Rgb)
    requires
        is_solid(first, width, height, color),
        is_solid(second, width, height, color),
    ensures
        first == second,
{
    lemma_raster_extensional(first, second);
}

} // verus!
