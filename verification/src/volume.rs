//! Filling volumes with points.
//!
//! A volume is filled with a number of points that is either given or follows
//! from a density. The points are drawn one by one in the volume's own frame,
//! as a height along its axis and two coordinates across it, and laid out
//! along the axis that the volume is aligned with.

use crate::direction::Direction;
use crate::distribution::DistributionError;
use vstd::prelude::*;

verus! {

/// How many points a volume is filled with: a number of points, or a density
/// from which the number follows. `S` is the type of the density.
#[derive(Clone, Copy, Debug, PartialEq)]
pub enum FillType<S> {
    /// Points per unit of volume.
    Density(S),
    /// The number of points.
    NumCoords(u64),
}

impl<S> FillType<S> {
    /// The number of points to fill with. A given number is returned as it
    /// is; for a density, `by_density` says how many points the volume takes.
    pub fn to_num_coords<F: FnOnce(S) -> u64>(self, by_density: F) -> (num_coords: u64)
        requires
            self matches FillType::Density(density) ==> call_requires(by_density, (density,)),
        ensures
            match self {
                FillType::Density(density) => call_ensures(by_density, (density,), num_coords),
                FillType::NumCoords(number) => num_coords == number,
            },
    {
        match self {
            FillType::Density(density) => by_density(density),
            FillType::NumCoords(number) => number,
        }
    }
}

/// Whether `gen_coord` can hand out some `(r0, r1, h)` of which `coord` is
/// the layout along `alignment`: `h` on the axis, `r0` and `r1` across it.
pub open spec fn drawn<R, S, G: Fn(&mut R) -> (S, S, S)>(
    alignment: Direction,
    gen_coord: G,
    coord: (S, S, S),
) -> bool {
    exists|rng: &mut R, r0: S, r1: S, h: S|
        {
            &&& #[trigger] call_ensures(gen_coord, (rng,), (r0, r1, h))
            &&& coord == alignment.arranged(h, (r0, r1))
        }
}

/// Whether `coords` are `num_coords` points drawn with `gen_coord` and laid
/// out along `alignment`.
pub open spec fn filled<R, S, G: Fn(&mut R) -> (S, S, S)>(
    alignment: Direction,
    num_coords: u64,
    gen_coord: G,
    coords: Seq<(S, S, S)>,
) -> bool {
    &&& coords.len() == num_coords
    &&& forall|i: int|
        0 <= i < coords.len() ==> drawn::<R, S, G>(alignment, gen_coord, #[trigger] coords[i])
}

/// Draws `num_coords` points of a volume that is aligned with `alignment`.
///
/// Every call of `gen_coord` draws one point in the volume's own frame from
/// the random number source `rng` and returns `(r0, r1, h)`: the two
/// coordinates across the axis and the height along it. The points come back
/// as `(x, y, z)`, in the order drawn.
pub fn gen_coords<R, S, G: Fn(&mut R) -> (S, S, S)>(
    alignment: Direction,
    num_coords: u64,
    rng: &mut R,
    gen_coord: G,
) -> (coords: Vec<(S, S, S)>)
    requires
        forall|rng: &mut R| call_requires(gen_coord, (rng,)),
    ensures
        filled::<R, S, G>(alignment, num_coords, gen_coord, coords@),
        num_coords == 0 ==> *final(rng) == *old(rng),
{
    let mut coords: Vec<(S, S, S)> = Vec::new();
    let mut count: u64 = 0;
    while count < num_coords
        invariant
            count <= num_coords,
            forall|rng: &mut R| call_requires(gen_coord, (rng,)),
            filled::<R, S, G>(alignment, count, gen_coord, coords@),
            count == 0 ==> *rng == *old(rng),
        decreases num_coords - count,
    {
        let (r0, r1, h) = gen_coord(rng);
        let coord = alignment.arrange(h, r0, r1);
        proof {
            assert(drawn::<R, S, G>(alignment, gen_coord, coord));
        }
        coords.push(coord);
        count += 1;
    }
    coords
}

/// Fills a volume that is aligned with `alignment` with points.
///
/// The number of points is that of `fill_type`, which for a density is what
/// `by_density` makes of it. A density that comes to no point at all fills
/// nothing: this is an error, and nothing is drawn. The points are drawn as by
/// [`gen_coords`].
pub fn fill<R, S, F, G>(
    alignment: Direction,
    fill_type: FillType<S>,
    by_density: F,
    rng: &mut R,
    gen_coord: G,
) -> (result: Result<Vec<(S, S, S)>, DistributionError>) where
    F: FnOnce(S) -> u64,
    G: Fn(&mut R) -> (S, S, S),

    requires
        fill_type matches FillType::Density(density) ==> call_requires(by_density, (density,)),
        forall|rng: &mut R| call_requires(gen_coord, (rng,)),
    ensures
        match fill_type {
            FillType::NumCoords(number) => {
                &&& result matches Ok(coords)
                &&& filled::<R, S, G>(alignment, number, gen_coord, coords@)
            },
            FillType::Density(density) => exists|number: u64|
                {
                    &&& #[trigger] call_ensures(by_density, (density,), number)
                    &&& match result {
                        Ok(coords) => number > 0 && filled::<R, S, G>(
                            alignment,
                            number,
                            gen_coord,
                            coords@,
                        ),
                        Err(error) => {
                            &&& number == 0
                            &&& error == DistributionError::EmptyResult
                            &&& *final(rng) == *old(rng)
                        },
                    }
                },
        },
{
    match fill_type {
        FillType::NumCoords(number) => Ok(gen_coords(alignment, number, rng, gen_coord)),
        FillType::Density(density) => {
            let number = by_density(density);
            if number == 0 {
                Err(DistributionError::EmptyResult)
            } else {
                Ok(gen_coords(alignment, number, rng, gen_coord))
            }
        },
    }
}

} // verus!
