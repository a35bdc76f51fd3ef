//! Directions along the coordinate axes.

use vstd::prelude::*;

verus! {

/// One of the three coordinate axes: the normal of a sheet, or the axis that a
/// cylinder is aligned with.
#[derive(Clone, Copy, Debug, PartialEq, Eq, Structural)]
pub enum Direction {
    X,
    Y,
    Z,
}

impl Direction {
    /// The triple `(x, y, z)` in which `along` stands on this axis and the two
    /// values of `across` fill the other two axes in their order.
    pub open spec fn arranged<T>(self, along: T, across: (T, T)) -> (T, T, T) {
        match self {
            Direction::X => (along, across.0, across.1),
            Direction::Y => (across.0, along, across.1),
            Direction::Z => (across.0, across.1, along),
        }
    }

    /// The component of `xyz` on this axis.
    pub open spec fn along<T>(self, xyz: (T, T, T)) -> T {
        match self {
            Direction::X => xyz.0,
            Direction::Y => xyz.1,
            Direction::Z => xyz.2,
        }
    }

    /// The two components of `xyz` on the other axes, in their order.
    pub open spec fn across<T>(self, xyz: (T, T, T)) -> (T, T) {
        match self {
            Direction::X => (xyz.1, xyz.2),
            Direction::Y => (xyz.0, xyz.2),
            Direction::Z => (xyz.0, xyz.1),
        }
    }

    /// Lays out a value measured along this axis and two measured across it as
    /// `(x, y, z)`.
    ///
    /// A cylinder of height `h` and diameter `d` aligned with this axis has the
    /// bounding box `arrange(h, d, d)`; a point at height `h` and at `(r0, r1)`
    /// in the plane across the axis lies at `arrange(h, r0, r1)`.
    pub fn arrange<T>(self, along: T, across0: T, across1: T) -> (xyz: (T, T, T))
        ensures
            xyz == self.arranged(along, (across0, across1)),
    {
        match self {
            Direction::X => (along, across0, across1),
            Direction::Y => (across0, along, across1),
            Direction::Z => (across0, across1, along),
        }
    }

    /// Splits `(x, y, z)` into the component along this axis and the two
    /// across it: the inverse of [`Direction::arrange`].
    pub fn decompose<T>(self, x: T, y: T, z: T) -> (parts: (T, T, T))
        ensures
            parts.0 == self.along((x, y, z)),
            (parts.1, parts.2) == self.across((x, y, z)),
    {
        match self {
            Direction::X => (x, y, z),
            Direction::Y => (y, x, z),
            Direction::Z => (z, x, y),
        }
    }

    /// Decomposing an arranged triple gives back what was arranged.
    pub proof fn lemma_decompose_arranged<T>(self, along: T, across: (T, T))
        ensures
            self.along(self.arranged(along, across)) == along,
            self.across(self.arranged(along, across)) == across,
    {
    }

    /// Arranging the parts of a triple gives back the triple.
    pub proof fn lemma_arrange_decomposed<T>(self, xyz: (T, T, T))
        ensures
            self.arranged(self.along(xyz), self.across(xyz)) == xyz,
    {
    }
}

} // verus!
