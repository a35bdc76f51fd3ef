//! The basic structures of an atomic system.
//!
//! A system is made of components. A component places one residue, a small
//! group of atoms, at each of a list of positions; the atoms have positions
//! relative to their residue, and the residues relative to the component's
//! origin. Positions are values of the type parameter `P`, which this crate
//! stores and hands on but never computes with.

use crate::iterator::{stamped_len, AtomIterator};
use vstd::prelude::*;

verus! {

/// An atom of a residue: its code and its position relative to the residue.
#[derive(Clone, Debug, PartialEq)]
pub struct Atom<P> {
    /// Atom code.
    pub code: String,
    /// Relative position.
    pub position: P,
}

/// A residue to place copies of: its code and its atoms in their order.
#[derive(Clone, Debug, PartialEq)]
pub struct ResidueBase<P> {
    pub code: String,
    pub atoms: Vec<Atom<P>>,
}

impl<P> ResidueBase<P> {
    /// Constructs a residue with a code and no atoms yet.
    pub fn new(code: &str) -> (base: ResidueBase<P>)
        ensures
            base.code@ == code@,
            base.atoms@.len() == 0,
    {
        ResidueBase { code: code.to_owned(), atoms: Vec::new() }
    }

    /// Adds an atom with a code and a relative position behind those that the
    /// residue has.
    pub fn with_atom(self, code: &str, position: P) -> (base: ResidueBase<P>)
        ensures
            base.code == self.code,
            base.atoms@.len() == self.atoms@.len() + 1,
            base.atoms@.drop_last() == self.atoms@,
            base.atoms@.last().code@ == code@,
            base.atoms@.last().position == position,
    {
        let mut base = self;
        base.atoms.push(Atom { code: code.to_owned(), position });
        assert(base.atoms@.drop_last() =~= self.atoms@);
        base
    }
}

/// A component of a system: one residue placed at a list of positions.
#[derive(Clone, Debug)]
pub struct Component<P> {
    /// Component origin position. All residue positions are relative to this.
    pub origin: P,
    /// Component boundary box size.
    pub box_size: P,
    /// Residue base of component.
    pub residue_base: ResidueBase<P>,
    /// List of residue positions.
    pub residue_coords: Vec<P>,
}

impl<P: Copy> Component<P> {
    /// An iterator over the atoms of the component.
    pub fn iter_atoms(&self) -> (iter: AtomIterator<'_, P>)
        requires
            stamped_len(Some(&self.residue_base), self.residue_coords@.len()) <= u64::MAX,
        ensures
            iter.residue() == Some(&self.residue_base),
            iter.coords() == self.residue_coords@,
            iter.origin() == self.origin,
            iter.yielded() == 0,
    {
        AtomIterator::new(Some(&self.residue_base), self.residue_coords.as_slice(), self.origin)
    }
}

impl<P> Component<P> {
    /// The number of atoms that the component holds: those of its residue, once
    /// for every position.
    pub open spec fn atom_count(self) -> nat {
        (self.residue_base.atoms.len() * self.residue_coords.len()) as nat
    }

    /// Counts the atoms in the component.
    pub fn num_atoms(&self) -> (count: usize)
        requires
            self.atom_count() <= usize::MAX,
        ensures
            count == self.atom_count(),
    {
        self.residue_base.atoms.len() * self.residue_coords.len()
    }

    /// Translates the component: its origin is moved by `shift`, and with it
    /// all residues, whose positions are relative to the origin and stay as
    /// they are. `plus` moves a position by another.
    pub fn translate<F: FnOnce(P, P) -> P>(self, shift: P, plus: F) -> (moved: Component<P>)
        requires
            call_requires(plus, (self.origin, shift)),
        ensures
            call_ensures(plus, (self.origin, shift), moved.origin),
            moved.box_size == self.box_size,
            moved.residue_base == self.residue_base,
            moved.residue_coords == self.residue_coords,
    {
        Component {
            origin: plus(self.origin, shift),
            box_size: self.box_size,
            residue_base: self.residue_base,
            residue_coords: self.residue_coords,
        }
    }
}

} // verus!
