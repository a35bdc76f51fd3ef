//! Iterate over the atoms of a component.
//!
//! Every residue position of a component carries one copy of the residue. The
//! atoms come out position by position and, at each position, in the order of
//! the residue's atoms; they are numbered from zero through the whole
//! component. [`AtomIterator`] hands them out one at a time,
//! [`gen_atom_list`](crate::substrates::gen_atom_list) all at once.

use crate::system::{Atom, ResidueBase};
use vstd::arithmetic::div_mod::lemma_fundamental_div_mod_converse;
use vstd::prelude::*;

verus! {

/// Information about an atom, ready for output.
///
/// The atom lies at its own relative position, moved by the position of its
/// residue and by the origin of the component.
#[derive(Clone, Copy, Debug, PartialEq)]
pub struct CurrentAtom<'a, P> {
    /// Relative atom index in the component. 0-indexed.
    pub atom_index: u64,
    /// Relative residue index in the component. 0-indexed.
    pub residue_index: u64,
    /// Current atom type.
    pub atom: &'a Atom<P>,
    /// Current residue type.
    pub residue: &'a ResidueBase<P>,
    /// Position of the current residue, relative to the component origin.
    pub coord: P,
    /// Component origin position.
    pub origin: P,
}

impl<'a, P: Copy> CurrentAtom<'a, P> {
    /// Whether `position` is where the atom lies, when `plus` is what moves a
    /// position by another.
    pub open spec fn lies_at<F: Fn(P, P) -> P>(self, plus: F, position: P) -> bool {
        exists|in_component: P|
            {
                &&& #[trigger] call_ensures(plus, (self.atom.position, self.coord), in_component)
                &&& call_ensures(plus, (in_component, self.origin), position)
            }
    }

    /// The position of the atom: its relative position, moved by the position
    /// of its residue and then by the origin of the component. `plus` moves a
    /// position by another.
    pub fn position<F: Fn(P, P) -> P>(&self, plus: F) -> (position: P)
        requires
            call_requires(plus, (self.atom.position, self.coord)),
            forall|in_component: P|
                call_ensures(plus, (self.atom.position, self.coord), in_component)
                    ==> call_requires(plus, (in_component, self.origin)),
        ensures
            self.lies_at(plus, position),
    {
        let in_component = plus(self.atom.position, self.coord);
        plus(in_component, self.origin)
    }
}

/// The number of atoms of a component with the given residue at `units`
/// positions. Without a residue there are none.
pub open spec fn stamped_len<P>(residue: Option<&ResidueBase<P>>, units: nat) -> nat {
    match residue {
        Some(base) => (units * base.atoms.len()) as nat,
        None => 0,
    }
}

/// The atom with the index `k` of a component: the atom `k % size` of the
/// residue at position `k / size`, where `size` is the number of atoms of the
/// residue.
pub open spec fn stamped<'a, P>(
    residue: &'a ResidueBase<P>,
    coords: Seq<P>,
    origin: P,
    k: int,
) -> CurrentAtom<'a, P> {
    let size = residue.atoms.len() as int;
    CurrentAtom {
        atom_index: k as u64,
        residue_index: (k / size) as u64,
        atom: &residue.atoms[k % size],
        residue,
        coord: coords[k / size],
        origin,
    }
}

/// All atoms of a component, in their order.
pub open spec fn stamped_atoms<'a, P>(
    residue: Option<&'a ResidueBase<P>>,
    coords: Seq<P>,
    origin: P,
) -> Seq<CurrentAtom<'a, P>> {
    Seq::new(
        stamped_len(residue, coords.len()),
        |k: int| stamped(residue->Some_0, coords, origin, k),
    )
}

/// The index in a component of the atom `atom` of the residue at position
/// `unit`, where the residue has `size` atoms.
pub open spec fn stamped_index(size: nat, unit: nat, atom: nat) -> int {
    (unit * size + atom) as int
}

/// The atom `atom` of the residue at position `unit` has an index of its own
/// in the component, from which both are found again.
pub proof fn lemma_stamped_index(size: nat, units: nat, unit: nat, atom: nat)
    requires
        unit < units,
        atom < size,
    ensures
        0 <= stamped_index(size, unit, atom) < units * size,
        stamped_index(size, unit, atom) / (size as int) == unit,
        stamped_index(size, unit, atom) % (size as int) == atom,
{
    let k = stamped_index(size, unit, atom);
    lemma_fundamental_div_mod_converse(k, size as int, unit as int, atom as int);
    assert(unit * size + atom < units * size) by (nonlinear_arith)
        requires
            unit < units,
            atom < size,
    ;
}

/// A component with a residue of `size` atoms at `units` positions has
/// `units * size` atoms. Their atom indices count up from 0 to
/// `units * size - 1`. Their residue indices never fall, and each position's
/// index is held by exactly the `size` atoms of the residue placed there,
/// which come in the residue's order.
pub proof fn lemma_stamped_atoms<P>(residue: &ResidueBase<P>, coords: Seq<P>, origin: P)
    requires
        stamped_len(Some(residue), coords.len()) <= u64::MAX,
    ensures
        stamped_atoms(Some(residue), coords, origin).len() == coords.len() * residue.atoms.len(),
        forall|k: int|
            0 <= k < coords.len() * residue.atoms.len() ==> (#[trigger] stamped_atoms(
                Some(residue),
                coords,
                origin,
            )[k]).atom_index == k,
        forall|j: int, k: int|
            0 <= j <= k < coords.len() * residue.atoms.len() ==> (#[trigger] stamped_atoms(
                Some(residue),
                coords,
                origin,
            )[j]).residue_index <= (#[trigger] stamped_atoms(
                Some(residue),
                coords,
                origin,
            )[k]).residue_index,
        forall|k: int, unit: nat|
            0 <= k < coords.len() * residue.atoms.len() ==> ((#[trigger] stamped_atoms(
                Some(residue),
                coords,
                origin,
            )[k]).residue_index == unit <==> #[trigger] stamped_index(
                residue.atoms.len() as nat,
                unit,
                0,
            ) <= k < stamped_index(residue.atoms.len() as nat, unit + 1, 0)),
        forall|unit: nat, atom: nat|
            unit < coords.len() && atom < residue.atoms.len() ==> {
                let k = #[trigger] stamped_index(residue.atoms.len() as nat, unit, atom);
                &&& 0 <= k < coords.len() * residue.atoms.len()
                &&& stamped_atoms(Some(residue), coords, origin)[k] == (CurrentAtom {
                    atom_index: k as u64,
                    residue_index: unit as u64,
                    atom: &residue.atoms[atom as int],
                    residue,
                    coord: coords[unit as int],
                    origin,
                })
            },
{
    let size = residue.atoms.len() as nat;
    let units = coords.len();
    let atoms = stamped_atoms(Some(residue), coords, origin);
    assert forall|j: int, k: int| 0 <= j <= k < units * size implies (#[trigger] atoms[j]).residue_index
        <= (#[trigger] atoms[k]).residue_index by {
        lemma_stamped_unit(size, units, j);
        lemma_stamped_unit(size, units, k);
        vstd::arithmetic::div_mod::lemma_div_is_ordered(j, k, size as int);
    }
    assert forall|k: int, unit: nat| 0 <= k < units * size implies ((#[trigger] atoms[k]).residue_index
        == unit <==> #[trigger] stamped_index(size, unit, 0) <= k < stamped_index(
        size,
        unit + 1,
        0,
    )) by {
        lemma_stamped_unit(size, units, k);
        let q = k / (size as int);
        assert(unit * size <= k < (unit + 1) * size <==> q == unit) by (nonlinear_arith)
            requires
                q * size <= k < q * size + size,
                size > 0,
                unit >= 0,
        ;
    }
    assert forall|unit: nat, atom: nat| unit < units && atom < size implies {
        let k = #[trigger] stamped_index(size, unit, atom);
        &&& 0 <= k < units * size
        &&& atoms[k] == (CurrentAtom {
            atom_index: k as u64,
            residue_index: unit as u64,
            atom: &residue.atoms[atom as int],
            residue,
            coord: coords[unit as int],
            origin,
        })
    } by {
        lemma_stamped_index(size, units, unit, atom);
    }
}

/// The index `k` of an atom splits into the position of its residue and its
/// place in the residue.
proof fn lemma_stamped_unit(size: nat, units: nat, k: int)
    requires
        0 <= k < units * size,
    ensures
        size > 0,
        0 <= k / (size as int) < units,
        0 <= k % (size as int) < size,
        k == stamped_index(size, (k / (size as int)) as nat, (k % (size as int)) as nat),
        (k / (size as int)) * size <= k < (k / (size as int)) * size + size,
{
    assert(size > 0) by (nonlinear_arith)
        requires
            0 < units * size,
    ;
    let q = k / (size as int);
    let r = k % (size as int);
    vstd::arithmetic::div_mod::lemma_fundamental_div_mod(k, size as int);
    assert(k == q * size + r) by (nonlinear_arith)
        requires
            k == size * q + r,
    ;
    assert(0 <= q < units) by (nonlinear_arith)
        requires
            k == q * size + r,
            0 <= r < size,
            0 <= k < units * size,
    ;
}

/// An iterator over all the atoms in a component.
///
/// It is made from the residue, the residue positions and the origin of the
/// component, and yields each atom once. A new pass takes a new iterator.
pub struct AtomIterator<'a, P> {
    /// Current index of atom in the residue.
    atom_index: usize,
    /// Current index in coordinate list.
    coord_index: usize,
    /// Current absolute atom index in the component.
    atom_count: u64,
    /// The residue that is yielded.
    residue: Option<&'a ResidueBase<P>>,
    /// Component origin position.
    origin: P,
    /// List of coordinates to yield.
    coords: &'a [P],
}

impl<'a, P> AtomIterator<'a, P> {
    #[verifier::type_invariant]
    spec fn well_formed(self) -> bool {
        match self.residue {
            Some(base) => {
                &&& self.coord_index <= self.coords@.len()
                &&& self.atom_index <= base.atoms.len()
                &&& self.coord_index == self.coords@.len() ==> self.atom_index == 0
                &&& self.atom_count == self.coord_index * base.atoms.len() + self.atom_index
                &&& self.coords@.len() * base.atoms.len() <= u64::MAX
            },
            None => self.atom_count == 0,
        }
    }

    /// The residue that the iterator was made from.
    pub closed spec fn residue(self) -> Option<&'a ResidueBase<P>> {
        self.residue
    }

    /// The residue positions that the iterator was made from.
    pub closed spec fn coords(self) -> Seq<P> {
        self.coords@
    }

    /// The origin that the iterator was made from.
    pub closed spec fn origin(self) -> P {
        self.origin
    }

    /// The number of atoms yielded so far.
    pub closed spec fn yielded(self) -> nat {
        self.atom_count as nat
    }

    /// All atoms that the iterator yields from first to last.
    pub open spec fn atoms(self) -> Seq<CurrentAtom<'a, P>> {
        stamped_atoms(self.residue(), self.coords(), self.origin())
    }
}

impl<'a, P: Copy> AtomIterator<'a, P> {
    /// Constructs an iterator from the residue, list of residue positions and
    /// origin of a component.
    ///
    /// The residue is given as an (optional) reference to avoid a lot of
    /// copies.
    pub fn new(residue: Option<&'a ResidueBase<P>>, coords: &'a [P], origin: P) -> (iter:
        AtomIterator<'a, P>)
        requires
            stamped_len(residue, coords@.len()) <= u64::MAX,
        ensures
            iter.residue() == residue,
            iter.coords() == coords@,
            iter.origin() == origin,
            iter.yielded() == 0,
    {
        AtomIterator { atom_index: 0, coord_index: 0, atom_count: 0, residue, origin, coords }
    }

    /// Yields the next atom of the component, or `None` when all have been
    /// yielded.
    pub fn next(&mut self) -> (item: Option<CurrentAtom<'a, P>>)
        ensures
            final(self).residue() == old(self).residue(),
            final(self).coords() == old(self).coords(),
            final(self).origin() == old(self).origin(),
            final(self).atoms() == old(self).atoms(),
            old(self).yielded() <= old(self).atoms().len(),
            match item {
                Some(current) => {
                    &&& old(self).yielded() < old(self).atoms().len()
                    &&& current == old(self).atoms()[old(self).yielded() as int]
                    &&& final(self).yielded() == old(self).yielded() + 1
                },
                None => {
                    &&& old(self).yielded() == old(self).atoms().len()
                    &&& final(self).yielded() == old(self).yielded()
                },
            },
    {
        proof {
            use_type_invariant(&*self);
        }
        let residue = match self.residue {
            Some(base) => base,
            None => {
                return None;
            },
        };
        loop
            invariant
                self.residue == Some(residue),
                self.residue == old(self).residue,
                self.coords == old(self).coords,
                self.origin == old(self).origin,
                self.atom_count == old(self).atom_count,
            decreases self.coords@.len() - self.coord_index,
        {
            proof {
                use_type_invariant(&*self);
            }
            if self.coord_index >= self.coords.len() {
                return None;
            }
            if self.atom_index < residue.atoms.len() {
                proof {
                    lemma_stamped_index(
                        residue.atoms.len() as nat,
                        self.coords@.len() as nat,
                        self.coord_index as nat,
                        self.atom_index as nat,
                    );
                }
                let current = CurrentAtom {
                    atom_index: self.atom_count,
                    residue_index: self.coord_index as u64,
                    atom: &residue.atoms[self.atom_index],
                    residue,
                    coord: self.coords[self.coord_index],
                    origin: self.origin,
                };
                *self = AtomIterator {
                    atom_index: self.atom_index + 1,
                    coord_index: self.coord_index,
                    atom_count: self.atom_count + 1,
                    residue: self.residue,
                    origin: self.origin,
                    coords: self.coords,
                };
                return Some(current);
            }
            proof {
                assert((self.coord_index + 1) * residue.atoms.len() == self.coord_index
                    * residue.atoms.len() + residue.atoms.len()) by (nonlinear_arith);
            }
            *self = AtomIterator {
                atom_index: 0,
                coord_index: self.coord_index + 1,
                atom_count: self.atom_count,
                residue: self.residue,
                origin: self.origin,
                coords: self.coords,
            };
        }
    }
}

} // verus!
