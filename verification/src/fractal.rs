//! The fractal picture: a background gradient in red and blue, and in green
//! the escape time of the point that each pixel stands for.

use vstd::prelude::*;
use crate::buffer::{
    dimensions_fit,
    lemma_one_entry_per_coordinate,
    lemma_raster_extensional,
    PixelBuffer,
    Raster,
};
use crate::color::Rgb;
use crate::config::{ComplexPoint, FractalConfig};
use crate::escape::{
    escape_time,
    escapes_after,
    inside_is_single_valued,
    lemma_escape_time_unique,
    step_is_single_valued,
};

verus! {

/// The level of the background gradient at a coordinate: three tenths of the
/// coordinate, rounded down, of which the low eight bits are kept. The level
/// reaches 255 at coordinate 850 and starts again from 0 at coordinate 854.
///
/// The three tenths are exact. Multiplying by 0.3 in single precision gives
/// the same level for every coordinate below 3,495,263 and not beyond: at
/// that coordinate the exact level is 2, and single precision rounds up to 3.
pub open spec fn gradient(coordinate: u32) -> u8 {
    ((3 * coordinate / 10) % 256) as u8
}

/// Computes the level of the background gradient at a coordinate.
pub fn gradient_level(coordinate: u32) -> (level: u8)
    ensures
        level == gradient(coordinate),
{
    let tenths: u64 = 3 * (coordinate as u64) / 10;
    (tenths % 256) as u8
}

/// The axis map sends every index of every extent to one number only.
pub open spec fn axis_is_single_valued<T, Axis>(axis: Axis) -> bool where
    Axis: Fn(u32, u32) -> T,
 {
    forall|index: u32, extent: u32, a: T, b: T|
        #[trigger] axis.ensures((index, extent), a) && #[trigger] axis.ensures((index, extent), b)
            ==> a == b
}

/// `start` is a point that pixel `(x, y)` stands for. The axes are crossed:
/// the real part comes from the row `y`, scaled by the width, and the
/// imaginary part from the column `x`, scaled by the height.
pub open spec fn is_start<T, Axis>(
    config: FractalConfig<T>,
    axis: Axis,
    x: u32,
    y: u32,
    start: ComplexPoint<T>,
) -> bool where Axis: Fn(u32, u32) -> T {
    &&& axis.ensures((y, config.width), start.re)
    &&& axis.ensures((x, config.height), start.im)
}

/// `color` is a colour of pixel `(x, y)`: red and blue are the gradient
/// levels of `x` and `y`, and green is an escape time of a point that the
/// pixel stands for.
pub open spec fn is_shade<T, Axis, Inside, Step>(
    config: FractalConfig<T>,
    axis: Axis,
    inside: Inside,
    step: Step,
    x: u32,
    y: u32,
    color: Rgb,
) -> bool where
    Axis: Fn(u32, u32) -> T,
    Inside: Fn(ComplexPoint<T>, T) -> bool,
    Step: Fn(ComplexPoint<T>, ComplexPoint<T>) -> ComplexPoint<T>,
 {
    &&& color.red == gradient(x)
    &&& color.blue == gradient(y)
    &&& color.green <= config.max_iterations
    &&& exists|start: ComplexPoint<T>|
        is_start(config, axis, x, y, start) && escapes_after(
            config,
            inside,
            step,
            start,
            color.green,
        )
}

/// `raster` is a rendering under `config`: a dense grid of the configured
/// dimensions in which every pixel has a colour that is its own.
pub open spec fn is_rendering<T, Axis, Inside, Step>(
    raster: Raster,
    config: FractalConfig<T>,
    axis: Axis,
    inside: Inside,
    step: Step,
) -> bool where
    Axis: Fn(u32, u32) -> T,
    Inside: Fn(ComplexPoint<T>, T) -> bool,
    Step: Fn(ComplexPoint<T>, ComplexPoint<T>) -> ComplexPoint<T>,
 {
    &&& raster.well_formed()
    &&& raster.width == config.width
    &&& raster.height == config.height
    &&& forall|x: int, y: int|
        raster.contains(x, y) ==> is_shade(
            config,
            axis,
            inside,
            step,
            x as u32,
            y as u32,
            #[trigger] raster.pixel(x, y),
        )
}

/// Computes the colour of pixel `(x, y)`.
///
/// `axis(index, extent)` places an index of an axis of `extent` pixels on the
/// plane, `inside(z, radius)` tells whether `z` is still within the disc, and
/// `step(z, c)` applies the map once.
pub fn shade<T, Axis, Inside, Step>(
    config: &FractalConfig<T>,
    x: u32,
    y: u32,
    axis: &Axis,
    inside: &Inside,
    step: &Step,
) -> (color: Rgb) where
    T: Copy,
    Axis: Fn(u32, u32) -> T,
    Inside: Fn(ComplexPoint<T>, T) -> bool,
    Step: Fn(ComplexPoint<T>, ComplexPoint<T>) -> ComplexPoint<T>,

    requires
        forall|index: u32, extent: u32| axis.requires((index, extent)),
        forall|z: ComplexPoint<T>, radius: T| inside.requires((z, radius)),
        forall|z: ComplexPoint<T>, c: ComplexPoint<T>| step.requires((z, c)),
    ensures
        is_shade(*config, *axis, *inside, *step, x, y, color),
{
    let red = gradient_level(x);
    let blue = gradient_level(y);
    let re = axis(y, config.width);
    let im = axis(x, config.height);
    let start = ComplexPoint { re, im };
    let green = escape_time(config, start, inside, step);
    assert(is_start(*config, *axis, x, y, start));
    Rgb { red, green, blue }
}

/// Renders the picture: a buffer of `config.width` by `config.height` pixels
/// in which every pixel was shaded once.
///
/// A dimension of zero gives a buffer without pixels. The dimensions have to
/// fit, see `PixelBuffer::fits`.
pub fn generate<T, Axis, Inside, Step>(
    config: &FractalConfig<T>,
    axis: &Axis,
    inside: &Inside,
    step: &Step,
) -> (image: PixelBuffer) where
    T: Copy,
    Axis: Fn(u32, u32) -> T,
    Inside: Fn(ComplexPoint<T>, T) -> bool,
    Step: Fn(ComplexPoint<T>, ComplexPoint<T>) -> ComplexPoint<T>,

    requires
        dimensions_fit(config.width, config.height),
        forall|index: u32, extent: u32| axis.requires((index, extent)),
        forall|z: ComplexPoint<T>, radius: T| inside.requires((z, radius)),
        forall|z: ComplexPoint<T>, c: ComplexPoint<T>| step.requires((z, c)),
    ensures
        is_rendering(image@, *config, *axis, *inside, *step),
{
    let mut image = PixelBuffer::new(config.width, config.height);
    let mut y: u32 = 0;
    while y < config.height
        invariant
            forall|index: u32, extent: u32| axis.requires((index, extent)),
            forall|z: ComplexPoint<T>, radius: T| inside.requires((z, radius)),
            forall|z: ComplexPoint<T>, c: ComplexPoint<T>| step.requires((z, c)),
            y <= config.height,
            image@.well_formed(),
            image@.width == config.width,
            image@.height == config.height,
            forall|u: int, v: int|
                0 <= u < config.width && 0 <= v < y ==> is_shade(
                    *config,
                    *axis,
                    *inside,
                    *step,
                    u as u32,
                    v as u32,
                    #[trigger] image@.pixel(u, v),
                ),
        decreases config.height - y,
    {
        let mut x: u32 = 0;
        while x < config.width
            invariant
                forall|index: u32, extent: u32| axis.requires((index, extent)),
                forall|z: ComplexPoint<T>, radius: T| inside.requires((z, radius)),
                forall|z: ComplexPoint<T>, c: ComplexPoint<T>| step.requires((z, c)),
                y < config.height,
                x <= config.width,
                image@.well_formed(),
                image@.width == config.width,
                image@.height == config.height,
                forall|u: int, v: int|
                    0 <= u < config.width && 0 <= v < y ==> is_shade(
                        *config,
                        *axis,
                        *inside,
                        *step,
                        u as u32,
                        v as u32,
                        #[trigger] image@.pixel(u, v),
                    ),
                forall|u: int|
                    0 <= u < x ==> is_shade(
                        *config,
                        *axis,
                        *inside,
                        *step,
                        u as u32,
                        y,
                        #[trigger] image@.pixel(u, y as int),
                    ),
            decreases config.width - x,
        {
            let color = shade(config, x, y, axis, inside, step);
            image.put_pixel(x, y, color);
            x += 1;
        }
        y += 1;
    }
    image
}

/// Renders the picture if its dimensions fit, and gives `None` if they do
/// not. Nothing is asked of the dimensions.
pub fn try_generate<T, Axis, Inside, Step>(
    config: &FractalConfig<T>,
    axis: &Axis,
    inside: &Inside,
    step: &Step,
) -> (image: Option<PixelBuffer>) where
    T: Copy,
    Axis: Fn(u32, u32) -> T,
    Inside: Fn(ComplexPoint<T>, T) -> bool,
    Step: Fn(ComplexPoint<T>, ComplexPoint<T>) -> ComplexPoint<T>,

    requires
        forall|index: u32, extent: u32| axis.requires((index, extent)),
        forall|z: ComplexPoint<T>, radius: T| inside.requires((z, radius)),
        forall|z: ComplexPoint<T>, c: ComplexPoint<T>| step.requires((z, c)),
    ensures
        image.is_some() == dimensions_fit(config.width, config.height),
        image.is_some() ==> is_rendering(image.unwrap()@, *config, *axis, *inside, *step),
{
    if PixelBuffer::fits(config.width, config.height) {
        Some(generate(config, axis, inside, step))
    } else {
        None
    }
}

/// A rendering is dense, whatever the number type and the operations: it has
/// the configured dimensions and three samples for each pixel, every
/// coordinate has its own entry inside the container, no two entries share a
/// sample, and the green of every pixel is at most the cap.
pub proof fn lemma_rendering_is_dense<T, Axis, Inside, Step>(
    config: FractalConfig<T>,
    axis: Axis,
    inside: Inside,
    step: Step,
    raster: Raster,
    x: int,
    y: int,
    u: int,
    v: int,
) where
    Axis: Fn(u32, u32) -> T,
    Inside: Fn(ComplexPoint<T>, T) -> bool,
    Step: Fn(ComplexPoint<T>, ComplexPoint<T>) -> ComplexPoint<T>,

    requires
        is_rendering(raster, config, axis, inside, step),
        0 <= x < config.width,
        0 <= y < config.height,
        0 <= u < config.width,
        0 <= v < config.height,
    ensures
        raster.width == config.width,
        raster.height == config.height,
        raster.samples.len() == 3 * config.width * config.height,
        0 <= raster.offset(x, y),
        raster.offset(x, y) + 3 <= raster.samples.len(),
        x != u || y != v ==> raster.offset(x, y) + 3 <= raster.offset(u, v) || raster.offset(u, v)
            + 3 <= raster.offset(x, y),
        raster.pixel(x, y).green <= config.max_iterations,
{
    lemma_one_entry_per_coordinate(raster, x, y, u, v);
    assert(raster.contains(x, y));
    assert(is_shade(config, axis, inside, step, x as u32, y as u32, raster.pixel(x, y)));
}

/// The renderer adds nothing of its own to a picture: two renderings under
/// one configuration whose pixels have the same escape times are the same
/// raster, sample for sample, whatever the operations are.
pub proof fn lemma_rendering_determined_by_escape_times<T, Axis, Inside, Step>(
    config: FractalConfig<T>,
    axis: Axis,
    inside: Inside,
    step: Step,
    first: Raster,
    second: Raster,
) where
    Axis: Fn(u32, u32) -> T,
    Inside: Fn(ComplexPoint<T>, T) -> bool,
    Step: Fn(ComplexPoint<T>, ComplexPoint<T>) -> ComplexPoint<T>,

    requires
        is_rendering(first, config, axis, inside, step),
        is_rendering(second, config, axis, inside, step),
        forall|x: int, y: int|
            first.contains(x, y) ==> first.pixel(x, y).green == second.pixel(x, y).green,
    ensures
        first == second,
{
    assert forall|x: int, y: int| first.contains(x, y) implies first.pixel(x, y) == second.pixel(
        x,
        y,
    ) by {
        assert(is_shade(config, axis, inside, step, x as u32, y as u32, first.pixel(x, y)));
        assert(second.contains(x, y));
        assert(is_shade(config, axis, inside, step, x as u32, y as u32, second.pixel(x, y)));
    }
    lemma_raster_extensional(first, second);
}

/// A pixel has one colour only, as long as the three operations are
/// single-valued.
pub proof fn lemma_shade_unique<T, Axis, Inside, Step>(
    config: FractalConfig<T>,
    axis: Axis,
    inside: Inside,
    step: Step,
    x: u32,
    y: u32,
    first: Rgb,
    second: Rgb,
) where
    Axis: Fn(u32, u32) -> T,
    Inside: Fn(ComplexPoint<T>, T) -> bool,
    Step: Fn(ComplexPoint<T>, ComplexPoint<T>) -> ComplexPoint<T>,

    requires
        axis_is_single_valued(axis),
        inside_is_single_valued(inside),
        step_is_single_valued(step),
        is_shade(config, axis, inside, step, x, y, first),
        is_shade(config, axis, inside, step, x, y, second),
    ensures
        first == second,
{
    let a = choose|start: ComplexPoint<T>|
        is_start(config, axis, x, y, start) && escapes_after(
            config,
            inside,
            step,
            start,
            first.green,
        );
    let b = choose|start: ComplexPoint<T>|
        is_start(config, axis, x, y, start) && escapes_after(
            config,
            inside,
            step,
            start,
            second.green,
        );
    assert(a.re == b.re);
    assert(a.im == b.im);
    lemma_escape_time_unique(config, inside, step, a, first.green, second.green);
}

/// Rendering is deterministic: with single-valued operations, any two
/// renderings under one configuration are the same raster, sample for
/// sample. Nothing but the configuration and the operations enters a picture.
pub proof fn lemma_rendering_unique<T, Axis, Inside, Step>(
    config: FractalConfig<T>,
    axis: Axis,
    inside: Inside,
    step: Step,
    first: Raster,
    second: Raster,
) where
    Axis: Fn(u32, u32) -> T,
    Inside: Fn(ComplexPoint<T>, T) -> bool,
    Step: Fn(ComplexPoint<T>, ComplexPoint<T>) -> ComplexPoint<T>,

    requires
        axis_is_single_valued(axis),
        inside_is_single_valued(inside),
        step_is_single_valued(step),
        is_rendering(first, config, axis, inside, step),
        is_rendering(second, config, axis, inside, step),
    ensures
        first == second,
{
    assert forall|x: int, y: int| first.contains(x, y) implies first.pixel(x, y) == second.pixel(
        x,
        y,
    ) by {
        lemma_shade_unique(
            config,
            axis,
            inside,
            step,
            x as u32,
            y as u32,
            first.pixel(x, y),
            second.pixel(x, y),
        );
    }
    lemma_raster_extensional(first, second);
}

} // verus!
