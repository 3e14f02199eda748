//! Escape-time iteration: how many steps of a map a point survives inside a
//! region, up to a cap.
//!
//! The number type `T` and the two operations on points, the membership test
//! and the step of the map, belong to the caller. What is fixed here is the
//! order of the decisions: the cap is consulted first, then the region, and
//! only a point that passed both is advanced.

use vstd::prelude::*;
use crate::config::{ComplexPoint, FractalConfig};

verus! {

/// `orbit` records a run of the iteration from `start` that took `count`
/// steps: every point but the last was found inside the disc and then
/// advanced by `step`, and the run ended either at the cap or on a point
/// found outside.
pub open spec fn is_escape_orbit<T, Inside, Step>(
    config: FractalConfig<T>,
    inside: Inside,
    step: Step,
    start: ComplexPoint<T>,
    orbit: Seq<ComplexPoint<T>>,
    count: u8,
) -> bool where
    Inside: Fn(ComplexPoint<T>, T) -> bool,
    Step: Fn(ComplexPoint<T>, ComplexPoint<T>) -> ComplexPoint<T>,
 {
    &&& count <= config.max_iterations
    &&& orbit.len() == count + 1
    &&& orbit[0] == start
    &&& forall|i: int|
        0 <= i < count ==> inside.ensures((#[trigger] orbit[i], config.radius), true)
            && step.ensures((orbit[i], config.constant), orbit[i + 1])
    &&& count < config.max_iterations ==> inside.ensures(
        (orbit[count as int], config.radius),
        false,
    )
}

/// `count` is an escape time of `start`: some run of the iteration from
/// `start` took exactly `count` steps.
pub open spec fn escapes_after<T, Inside, Step>(
    config: FractalConfig<T>,
    inside: Inside,
    step: Step,
    start: ComplexPoint<T>,
    count: u8,
) -> bool where
    Inside: Fn(ComplexPoint<T>, T) -> bool,
    Step: Fn(ComplexPoint<T>, ComplexPoint<T>) -> ComplexPoint<T>,
 {
    exists|orbit: Seq<ComplexPoint<T>>| is_escape_orbit(config, inside, step, start, orbit, count)
}

/// The membership test answers every question in one way only.
pub open spec fn inside_is_single_valued<T, Inside>(inside: Inside) -> bool where
    Inside: Fn(ComplexPoint<T>, T) -> bool,
 {
    forall|z: ComplexPoint<T>, radius: T, a: bool, b: bool|
        #[trigger] inside.ensures((z, radius), a) && #[trigger] inside.ensures((z, radius), b)
            ==> a == b
}

/// The step of the map sends every point to one point only.
pub open spec fn step_is_single_valued<T, Step>(step: Step) -> bool where
    Step: Fn(ComplexPoint<T>, ComplexPoint<T>) -> ComplexPoint<T>,
 {
    forall|z: ComplexPoint<T>, c: ComplexPoint<T>, a: ComplexPoint<T>, b: ComplexPoint<T>|
        #[trigger] step.ensures((z, c), a) && #[trigger] step.ensures((z, c), b) ==> a == b
}

/// Counts the steps of the map that `start` survives inside the disc,
/// stopping at the cap.
///
/// The loop runs at most `config.max_iterations` times whatever the two
/// operations do, and it does not test the point once the cap is reached.
pub fn escape_time<T, Inside, Step>(
    config: &FractalConfig<T>,
    start: ComplexPoint<T>,
    inside: &Inside,
    step: &Step,
) -> (count: u8) where
    T: Copy,
    Inside: Fn(ComplexPoint<T>, T) -> bool,
    Step: Fn(ComplexPoint<T>, ComplexPoint<T>) -> ComplexPoint<T>,

    requires
        forall|z: ComplexPoint<T>, radius: T| inside.requires((z, radius)),
        forall|z: ComplexPoint<T>, c: ComplexPoint<T>| step.requires((z, c)),
    ensures
        count <= config.max_iterations,
        escapes_after(*config, *inside, *step, start, count),
{
    let mut z = start;
    let mut count: u8 = 0;
    let ghost mut orbit: Seq<ComplexPoint<T>> = seq![start];
    while count < config.max_iterations && inside(z, config.radius)
        invariant
            forall|z: ComplexPoint<T>, radius: T| inside.requires((z, radius)),
            forall|z: ComplexPoint<T>, c: ComplexPoint<T>| step.requires((z, c)),
            count <= config.max_iterations,
            orbit.len() == count + 1,
            orbit[0] == start,
            orbit[count as int] == z,
            forall|i: int|
                0 <= i < count ==> inside.ensures((#[trigger] orbit[i], config.radius), true)
                    && step.ensures((orbit[i], config.constant), orbit[i + 1]),
        decreases config.max_iterations - count,
    {
        z = step(z, config.constant);
        count += 1;
        proof {
            orbit = orbit.push(z);
        }
    }
    assert(is_escape_orbit(*config, *inside, *step, start, orbit, count));
    count
}

/// Two runs from one start under a single-valued step visit the same points
/// for as long as both last.
proof fn lemma_orbits_agree<T, Step>(
    step: Step,
    constant: ComplexPoint<T>,
    first: Seq<ComplexPoint<T>>,
    second: Seq<ComplexPoint<T>>,
    n: int,
) where Step: Fn(ComplexPoint<T>, ComplexPoint<T>) -> ComplexPoint<T>
    requires
        step_is_single_valued(step),
        0 <= n < first.len(),
        n < second.len(),
        first[0] == second[0],
        forall|i: int| 0 <= i < n ==> step.ensures((#[trigger] first[i], constant), first[i + 1]),
        forall|i: int|
            0 <= i < n ==> step.ensures((#[trigger] second[i], constant), second[i + 1]),
    ensures
        first[n] == second[n],
    decreases n,
{
    if n > 0 {
        lemma_orbits_agree(step, constant, first, second, n - 1);
        assert(step.ensures((first[n - 1], constant), first[n - 1 + 1]));
        assert(step.ensures((second[n - 1], constant), second[n - 1 + 1]));
    }
}

/// With a single-valued membership test and a single-valued step, a point has
/// exactly one escape time: running the iteration again gives the same count.
pub proof fn lemma_escape_time_unique<T, Inside, Step>(
    config: FractalConfig<T>,
    inside: Inside,
    step: Step,
    start: ComplexPoint<T>,
    first: u8,
    second: u8,
) where
    Inside: Fn(ComplexPoint<T>, T) -> bool,
    Step: Fn(ComplexPoint<T>, ComplexPoint<T>) -> ComplexPoint<T>,

    requires
        inside_is_single_valued(inside),
        step_is_single_valued(step),
        escapes_after(config, inside, step, start, first),
        escapes_after(config, inside, step, start, second),
    ensures
        first == second,
{
    let a = choose|orbit: Seq<ComplexPoint<T>>|
        is_escape_orbit(config, inside, step, start, orbit, first);
    let b = choose|orbit: Seq<ComplexPoint<T>>|
        is_escape_orbit(config, inside, step, start, orbit, second);
    if first < second {
        lemma_orbits_agree(step, config.constant, a, b, first as int);
        assert(inside.ensures((a[first as int], config.radius), false));
        assert(inside.ensures((b[first as int], config.radius), true));
    } else if second < first {
        lemma_orbits_agree(step, config.constant, a, b, second as int);
        assert(inside.ensures((b[second as int], config.radius), false));
        assert(inside.ensures((a[second as int], config.radius), true));
    }
}

} // verus!
