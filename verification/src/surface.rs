//! Which parts of a surface are constructed: the caps of a cylinder and the
//! sides of a cuboid.

use vstd::prelude::*;

verus! {

/// The caps that close a cylinder surface at its ends.
#[derive(Clone, Copy, Debug, PartialEq, Eq, Structural)]
pub enum CylinderCap {
    Top,
    Bottom,
    Both,
}

impl CylinderCap {
    /// The caps of a cylinder of which the bottom, the top, both or neither
    /// are closed.
    pub open spec fn closing(bottom: bool, top: bool) -> Option<CylinderCap> {
        match (bottom, top) {
            (true, true) => Some(CylinderCap::Both),
            (true, false) => Some(CylinderCap::Bottom),
            (false, true) => Some(CylinderCap::Top),
            (false, false) => None,
        }
    }

    /// The caps chosen from the list "Bottom", "Top" by the indices of the
    /// chosen entries.
    pub fn from_selections(selections: &[usize]) -> (cap: Option<CylinderCap>)
        ensures
            cap == CylinderCap::closing(selections@.contains(0), selections@.contains(1)),
    {
        match (is_selected(selections, 0), is_selected(selections, 1)) {
            (true, true) => Some(CylinderCap::Both),
            (true, false) => Some(CylinderCap::Bottom),
            (false, true) => Some(CylinderCap::Top),
            _ => None,
        }
    }
}

/// A side of a cuboid: the face at the low (0) or high (1) end of an axis.
#[derive(Clone, Copy, Debug, PartialEq, Eq, Structural)]
pub enum Side {
    X0,
    X1,
    Y0,
    Y1,
    Z0,
    Z1,
}

impl Side {
    /// The place of the side in the list X0, X1, Y0, Y1, Z0, Z1.
    pub open spec fn index(self) -> usize {
        match self {
            Side::X0 => 0,
            Side::X1 => 1,
            Side::Y0 => 2,
            Side::Y1 => 3,
            Side::Z0 => 4,
            Side::Z1 => 5,
        }
    }
}

/// A set of sides of a cuboid.
#[derive(Clone, Copy, Debug, PartialEq, Eq, Structural)]
pub struct Sides {
    x0: bool,
    x1: bool,
    y0: bool,
    y1: bool,
    z0: bool,
    z1: bool,
}

impl Sides {
    /// Whether the set holds the side.
    pub closed spec fn has(self, side: Side) -> bool {
        match side {
            Side::X0 => self.x0,
            Side::X1 => self.x1,
            Side::Y0 => self.y0,
            Side::Y1 => self.y1,
            Side::Z0 => self.z0,
            Side::Z1 => self.z1,
        }
    }

    /// Two sets that hold the same sides are one set.
    pub proof fn lemma_ext_equal(self, other: Sides)
        requires
            forall|side: Side| self.has(side) == other.has(side),
        ensures
            self == other,
    {
        assert(self.has(Side::X0) == other.has(Side::X0));
        assert(self.has(Side::X1) == other.has(Side::X1));
        assert(self.has(Side::Y0) == other.has(Side::Y0));
        assert(self.has(Side::Y1) == other.has(Side::Y1));
        assert(self.has(Side::Z0) == other.has(Side::Z0));
        assert(self.has(Side::Z1) == other.has(Side::Z1));
    }

    /// The set of no sides.
    pub fn empty() -> (sides: Sides)
        ensures
            forall|side: Side| !sides.has(side),
    {
        Sides { x0: false, x1: false, y0: false, y1: false, z0: false, z1: false }
    }

    /// The set of all six sides.
    pub fn all() -> (sides: Sides)
        ensures
            forall|side: Side| sides.has(side),
    {
        Sides { x0: true, x1: true, y0: true, y1: true, z0: true, z1: true }
    }

    /// Whether the set holds the side.
    pub fn contains(&self, side: Side) -> (found: bool)
        ensures
            found == self.has(side),
    {
        match side {
            Side::X0 => self.x0,
            Side::X1 => self.x1,
            Side::Y0 => self.y0,
            Side::Y1 => self.y1,
            Side::Z0 => self.z0,
            Side::Z1 => self.z1,
        }
    }

    /// Puts the side into the set.
    pub fn insert(&mut self, side: Side)
        ensures
            forall|other: Side| final(self).has(other) == (other == side || old(self).has(other)),
    {
        match side {
            Side::X0 => self.x0 = true,
            Side::X1 => self.x1 = true,
            Side::Y0 => self.y0 = true,
            Side::Y1 => self.y1 = true,
            Side::Z0 => self.z0 = true,
            Side::Z1 => self.z1 = true,
        }
    }

    /// The sides chosen from the list "X0", "X1", "Y0", "Y1", "Z0", "Z1" by
    /// the indices of the chosen entries.
    pub fn from_selections(selections: &[usize]) -> (sides: Sides)
        ensures
            forall|side: Side| sides.has(side) == selections@.contains(side.index()),
    {
        let mut sides = Sides::empty();
        if is_selected(selections, 0) {
            sides.insert(Side::X0);
        }
        if is_selected(selections, 1) {
            sides.insert(Side::X1);
        }
        if is_selected(selections, 2) {
            sides.insert(Side::Y0);
        }
        if is_selected(selections, 3) {
            sides.insert(Side::Y1);
        }
        if is_selected(selections, 4) {
            sides.insert(Side::Z0);
        }
        if is_selected(selections, 5) {
            sides.insert(Side::Z1);
        }
        sides
    }
}

/// Whether the entry with the given index is among the chosen ones.
fn is_selected(selections: &[usize], index: usize) -> (found: bool)
    ensures
        found == selections@.contains(index),
{
    let mut i: usize = 0;
    while i < selections.len()
        invariant
            i <= selections@.len(),
            forall|k: int| 0 <= k < i ==> selections@[k] != index,
        decreases selections@.len() - i,
    {
        if selections[i] == index {
            return true;
        }
        i += 1;
    }
    false
}

} // verus!
