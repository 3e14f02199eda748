//! The pixel buffer: a dense `width` by `height` grid of RGB pixels.
//!
//! The storage is an `ImageBuffer` of the `image` crate. Verus cannot look
//! inside it, so this module names what the buffer holds, states for each
//! call into `image` what it does to that content, and builds the verified
//! pixel-level interface on top of those statements.

use vstd::arithmetic::div_mod::{
    lemma_div_pos_is_pos,
    lemma_fundamental_div_mod,
    lemma_mod_bound,
    lemma_multiply_divide_lt,
};
use vstd::prelude::*;
use crate::color::Rgb;

verus! {

/// The mathematical content of a pixel buffer: its dimensions and its channel
/// samples, three per pixel, row after row.
pub struct Raster {
    pub width: int,
    pub height: int,
    pub samples: Seq<u8>,
}

impl Raster {
    /// The grid is dense: there are exactly three samples for each
    /// coordinate, neither gaps nor spare samples.
    pub open spec fn well_formed(self) -> bool {
        &&& 0 <= self.width <= u32::MAX
        &&& 0 <= self.height <= u32::MAX
        &&& self.samples.len() == 3 * self.width * self.height
    }

    /// Whether `(x, y)` is a coordinate of the grid.
    pub open spec fn contains(self, x: int, y: int) -> bool {
        0 <= x < self.width && 0 <= y < self.height
    }

    /// Where the first sample of pixel `(x, y)` stands.
    pub open spec fn offset(self, x: int, y: int) -> int {
        3 * (y * self.width + x)
    }

    /// The colour at `(x, y)`.
    pub open spec fn pixel(self, x: int, y: int) -> Rgb {
        Rgb {
            red: self.samples[self.offset(x, y)],
            green: self.samples[self.offset(x, y) + 1],
            blue: self.samples[self.offset(x, y) + 2],
        }
    }

    /// The raster that differs from `self` in the colour at `(x, y)` only.
    pub open spec fn with_pixel(self, x: int, y: int, color: Rgb) -> Raster {
        Raster {
            width: self.width,
            height: self.height,
            samples: self.samples.update(self.offset(x, y), color.red).update(
                self.offset(x, y) + 1,
                color.green,
            ).update(self.offset(x, y) + 2, color.blue),
        }
    }
}

/// Whether the samples of a `width` by `height` picture, three per pixel, can
/// be held by one vector: the samples of one row can be counted in a `usize`,
/// and those of all rows are no more than a vector takes. The first condition
/// matters only where `usize` is narrower than 64 bits, and there also for a
/// picture without rows.
pub open spec fn dimensions_fit(width: u32, height: u32) -> bool {
    &&& 3 * width <= usize::MAX
    &&& 3 * width * height <= isize::MAX
}

/// A dense grid of RGB pixels, eight bits per channel, kept in an
/// `image::ImageBuffer<image::Rgb<u8>, Vec<u8>>`.
#[verifier::external_body]
pub struct PixelBuffer {
    image: image::ImageBuffer<image::Rgb<u8>, Vec<u8>>,
}

/// What `ImageBuffer::dimensions` reports for the buffer: width, then height.
pub uninterp spec fn buffer_dimensions(buffer: PixelBuffer) -> (u32, u32);

/// The samples in the buffer's container, in storage order.
pub uninterp spec fn buffer_samples(buffer: PixelBuffer) -> Seq<u8>;

/// A buffer is viewed as the raster it holds.
impl View for PixelBuffer {
    type V = Raster;

    open spec fn view(&self) -> Raster {
        Raster {
            width: buffer_dimensions(*self).0 as int,
            height: buffer_dimensions(*self).1 as int,
            samples: buffer_samples(*self),
        }
    }
}

/// Calls `ImageBuffer::new`, which allocates `3 * width * height` samples,
/// all zero. It computes that count as `3 * width`, then times `height`, and
/// panics when either product overflows `usize`; the allocation panics when
/// the count exceeds `isize::MAX`. Such dimensions are excluded.
#[verifier::external_body]
fn image_new(width: u32, height: u32) -> (buffer: PixelBuffer)
    requires
        3 * width <= usize::MAX,
        3 * width * height <= isize::MAX,
    ensures
        buffer_dimensions(buffer) == (width, height),
        buffer_samples(buffer).len() == 3 * width * height,
        forall|i: int| 0 <= i < 3 * width * height ==> buffer_samples(buffer)[i] == 0,
{
    PixelBuffer { image: image::ImageBuffer::new(width, height) }
}

/// Calls `ImageBuffer::dimensions`, which reads the stored width and height.
#[verifier::external_body]
fn image_dimensions(buffer: &PixelBuffer) -> (dimensions: (u32, u32))
    ensures
        dimensions == buffer_dimensions(*buffer),
{
    buffer.image.dimensions()
}

/// Calls `ImageBuffer::get_pixel`, which reads the three samples that start
/// at `3 * (y * width + x)`. It panics outside the grid.
#[verifier::external_body]
fn image_get_pixel(buffer: &PixelBuffer, x: u32, y: u32) -> (color: Rgb)
    requires
        x < buffer_dimensions(*buffer).0,
        y < buffer_dimensions(*buffer).1,
    ensures
        color.red == buffer_samples(*buffer)[3 * (y * buffer_dimensions(*buffer).0 + x)],
        color.green == buffer_samples(*buffer)[3 * (y * buffer_dimensions(*buffer).0 + x) + 1],
        color.blue == buffer_samples(*buffer)[3 * (y * buffer_dimensions(*buffer).0 + x) + 2],
{
    let pixel = buffer.image.get_pixel(x, y);
    Rgb { red: pixel.data[0], green: pixel.data[1], blue: pixel.data[2] }
}

/// Calls `ImageBuffer::put_pixel`, which overwrites the three samples that
/// start at `3 * (y * width + x)` and nothing else. It panics outside the
/// grid.
#[verifier::external_body]
fn image_put_pixel(buffer: &mut PixelBuffer, x: u32, y: u32, color: Rgb)
    requires
        x < buffer_dimensions(*old(buffer)).0,
        y < buffer_dimensions(*old(buffer)).1,
    ensures
        buffer_dimensions(*final(buffer)) == buffer_dimensions(*old(buffer)),
        buffer_samples(*final(buffer)) == buffer_samples(*old(buffer)).update(
            3 * (y * buffer_dimensions(*old(buffer)).0 + x),
            color.red,
        ).update(3 * (y * buffer_dimensions(*old(buffer)).0 + x) + 1, color.green).update(
            3 * (y * buffer_dimensions(*old(buffer)).0 + x) + 2,
            color.blue,
        ),
{
    buffer.image.put_pixel(x, y, image::Rgb([color.red, color.green, color.blue]));
}

/// Calls `ImageBuffer::into_raw`, which hands out the container of samples.
#[verifier::external_body]
fn image_into_raw(buffer: PixelBuffer) -> (samples: Vec<u8>)
    ensures
        samples@ == buffer_samples(buffer),
{
    buffer.image.into_raw()
}

/// Distinct coordinates of a grid have sample triples that do not overlap.
proof fn lemma_offsets_apart(width: int, x: int, y: int, u: int, v: int)
    requires
        0 <= x < width,
        0 <= u < width,
        0 <= y,
        0 <= v,
        x != u || y != v,
    ensures
        3 * (y * width + x) + 3 <= 3 * (v * width + u) || 3 * (v * width + u) + 3 <= 3 * (y
            * width + x),
{
    if y < v {
        assert((y + 1) * width <= v * width) by (nonlinear_arith)
            requires
                y + 1 <= v,
                0 <= width,
        ;
        assert((y + 1) * width == y * width + width) by (nonlinear_arith);
    } else if v < y {
        assert((v + 1) * width <= y * width) by (nonlinear_arith)
            requires
                v + 1 <= y,
                0 <= width,
        ;
        assert((v + 1) * width == v * width + width) by (nonlinear_arith);
    }
}

/// The sample triple of a coordinate of the grid lies inside a dense
/// container.
proof fn lemma_offset_in_range(width: int, height: int, x: int, y: int)
    requires
        0 <= x < width,
        0 <= y < height,
    ensures
        0 <= 3 * (y * width + x),
        3 * (y * width + x) + 3 <= 3 * width * height,
{
    assert(0 <= y * width) by (nonlinear_arith)
        requires
            0 <= y,
            0 <= width,
    ;
    assert((y + 1) * width <= height * width) by (nonlinear_arith)
        requires
            y + 1 <= height,
            0 <= width,
    ;
    assert((y + 1) * width == y * width + width) by (nonlinear_arith);
    assert(3 * width * height == 3 * (height * width)) by (nonlinear_arith);
}

/// In a dense raster every coordinate has exactly one entry: its three
/// samples lie inside the container, and the entries of two distinct
/// coordinates share no sample.
pub proof fn lemma_one_entry_per_coordinate(raster: Raster, x: int, y: int, u: int, v: int)
    requires
        raster.well_formed(),
        raster.contains(x, y),
        raster.contains(u, v),
    ensures
        0 <= raster.offset(x, y),
        raster.offset(x, y) + 3 <= raster.samples.len(),
        x != u || y != v ==> raster.offset(x, y) + 3 <= raster.offset(u, v) || raster.offset(u, v)
            + 3 <= raster.offset(x, y),
{
    lemma_offset_in_range(raster.width, raster.height, x, y);
    if x != u || y != v {
        lemma_offsets_apart(raster.width, x, y, u, v);
    }
}

/// Two dense rasters of the same dimensions that show the same colour at
/// every coordinate are one raster, sample for sample.
pub proof fn lemma_raster_extensional(a: Raster, b: Raster)
    requires
        a.well_formed(),
        b.well_formed(),
        a.width == b.width,
        a.height == b.height,
        forall|x: int, y: int| a.contains(x, y) ==> a.pixel(x, y) == b.pixel(x, y),
    ensures
        a == b,
{
    let width = a.width;
    let height = a.height;
    assert(a.samples.len() == b.samples.len());
    assert forall|k: int| 0 <= k < a.samples.len() implies a.samples[k] == b.samples[k] by {
        let index = k / 3;
        assert(0 < width) by (nonlinear_arith)
            requires
                0 <= width,
                0 <= k < 3 * width * height,
        ;
        assert(index < width * height) by (nonlinear_arith)
            requires
                index == k / 3,
                0 <= k < 3 * width * height,
        ;
        let x = index % width;
        let y = index / width;
        lemma_fundamental_div_mod(index, width);
        lemma_mod_bound(index, width);
        lemma_div_pos_is_pos(index, width);
        lemma_multiply_divide_lt(index, width, height);
        assert(width * y == y * width) by (nonlinear_arith);
        assert(a.contains(x, y));
        assert(a.pixel(x, y) == b.pixel(x, y));
        assert(a.offset(x, y) == 3 * index);
        assert(b.offset(x, y) == 3 * index);
        assert(k == 3 * index || k == 3 * index + 1 || k == 3 * index + 2);
    }
    assert(a.samples =~= b.samples);
}

impl PixelBuffer {
    /// Tells whether a `width` by `height` picture can be held, that is
    /// whether `new` may be called with these dimensions.
    pub fn fits(width: u32, height: u32) -> (fits: bool)
        ensures
            fits == dimensions_fit(width, height),
    {
        assert(width * height <= 0xffff_ffff * 0xffff_ffff) by (nonlinear_arith)
            requires
                width <= 0xffff_ffff,
                height <= 0xffff_ffff,
        ;
        let pixels: u128 = (width as u128) * (height as u128);
        assert(3 * width * height == 3 * (width * height)) by (nonlinear_arith);
        3 * (width as u128) <= usize::MAX as u128 && 3 * pixels <= isize::MAX as u128
    }

    /// A `width` by `height` buffer in which every pixel is black.
    ///
    /// The dimensions have to fit, see `fits`.
    pub fn new(width: u32, height: u32) -> (buffer: PixelBuffer)
        requires
            dimensions_fit(width, height),
        ensures
            buffer@.well_formed(),
            buffer@.width == width,
            buffer@.height == height,
            forall|x: int, y: int| buffer@.contains(x, y) ==> buffer@.pixel(x, y) == Rgb::black(),
    {
        let buffer = image_new(width, height);
        proof {
            assert forall|x: int, y: int| buffer@.contains(x, y) implies buffer@.pixel(x, y)
                == Rgb::black() by {
                lemma_offset_in_range(width as int, height as int, x, y);
            }
        }
        buffer
    }

    /// The number of pixels in a row.
    pub fn width(&self) -> (width: u32)
        ensures
            width == self@.width,
    {
        image_dimensions(self).0
    }

    /// The number of rows.
    pub fn height(&self) -> (height: u32)
        ensures
            height == self@.height,
    {
        image_dimensions(self).1
    }

    /// The colour at `(x, y)`, or `None` when the coordinate lies outside the
    /// grid.
    pub fn get_pixel(&self, x: u32, y: u32) -> (found: Option<Rgb>)
        ensures
            found == if self@.contains(x as int, y as int) {
                Some(self@.pixel(x as int, y as int))
            } else {
                None
            },
    {
        let dimensions = image_dimensions(self);
        if x < dimensions.0 && y < dimensions.1 {
            Some(image_get_pixel(self, x, y))
        } else {
            None
        }
    }

    /// Sets the colour at `(x, y)` and leaves every other pixel as it was.
    pub fn put_pixel(&mut self, x: u32, y: u32, color: Rgb)
        requires
            old(self)@.well_formed(),
            old(self)@.contains(x as int, y as int),
        ensures
            final(self)@ == old(self)@.with_pixel(x as int, y as int, color),
            final(self)@.well_formed(),
            final(self)@.width == old(self)@.width,
            final(self)@.height == old(self)@.height,
            final(self)@.pixel(x as int, y as int) == color,
            forall|u: int, v: int|
                old(self)@.contains(u, v) && (u != x || v != y) ==> final(self)@.pixel(u, v) == old(
                    self,
                )@.pixel(u, v),
    {
        image_put_pixel(self, x, y, color);
        proof {
            let before = old(self)@;
            lemma_offset_in_range(before.width, before.height, x as int, y as int);
            assert forall|u: int, v: int| before.contains(u, v) && (u != x || v != y) implies self@.pixel(
                u,
                v,
            ) == before.pixel(u, v) by {
                lemma_offsets_apart(before.width, x as int, y as int, u, v);
                lemma_offset_in_range(before.width, before.height, u, v);
            }
        }
    }

    /// Gives up the buffer for its samples: three per pixel, red, green,
    /// blue, row after row.
    pub fn into_raw(self) -> (samples: Vec<u8>)
        ensures
            samples@ == self@.samples,
    {
        image_into_raw(self)
    }
}

} // verus!
