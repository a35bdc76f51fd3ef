//! Substrates: sheets of one residue on the points of a grid.

use crate::iterator::{lemma_stamped_index, stamped, stamped_atoms, stamped_len, CurrentAtom};
use crate::system::{Atom, ResidueBase};
use vstd::prelude::*;

verus! {

/// Substrate types.
#[derive(Clone, Copy, Debug, PartialEq, Eq, Structural)]
pub enum Substrate {
    Graphene,
    Silica,
}

/// Generates the atoms of a residue for every point of a grid: all atoms of
/// the residue at the first point in the residue's order, then those at the
/// second, and so on, numbered through from zero.
pub fn gen_atom_list<'a, P: Copy>(residue: &'a ResidueBase<P>, coords: &'a [P], origin: P) -> (atoms:
    Vec<CurrentAtom<'a, P>>)
    requires
        stamped_len(Some(residue), coords@.len()) <= u64::MAX,
    ensures
        atoms@ == stamped_atoms(Some(residue), coords@, origin),
{
    let size = residue.atoms.len();
    let mut atoms: Vec<CurrentAtom<'a, P>> = Vec::new();
    let mut i: usize = 0;
    while i < coords.len()
        invariant
            size == residue.atoms.len(),
            i <= coords@.len(),
            coords@.len() * size <= u64::MAX,
            atoms@.len() == i * size,
            forall|k: int|
                0 <= k < atoms@.len() ==> #[trigger] atoms@[k] == stamped(
                    residue,
                    coords@,
                    origin,
                    k,
                ),
        decreases coords@.len() - i,
    {
        let mut j: usize = 0;
        while j < size
            invariant
                size == residue.atoms.len(),
                i < coords@.len(),
                j <= size,
                coords@.len() * size <= u64::MAX,
                atoms@.len() == i * size + j,
                forall|k: int|
                    0 <= k < atoms@.len() ==> #[trigger] atoms@[k] == stamped(
                        residue,
                        coords@,
                        origin,
                        k,
                    ),
            decreases size - j,
        {
            proof {
                lemma_stamped_index(size as nat, coords@.len(), i as nat, j as nat);
                assert(size * i == i * size) by (nonlinear_arith);
            }
            atoms.push(get_atom(i, j, coords[i], &residue.atoms[j], residue, origin));
            j += 1;
        }
        proof {
            assert((i + 1) * size == i * size + size) by (nonlinear_arith);
        }
        i += 1;
    }
    atoms
}

/// The record of the atom with the number `atom_number` in the residue with
/// the number `residue_number`, which lies at `grid_point`.
pub fn get_atom<'a, P: Copy>(
    residue_number: usize,
    atom_number: usize,
    grid_point: P,
    atom: &'a Atom<P>,
    residue: &'a ResidueBase<P>,
    origin: P,
) -> (current: CurrentAtom<'a, P>)
    requires
        residue.atoms.len() * residue_number + atom_number <= u64::MAX,
    ensures
        current == (CurrentAtom {
            atom_index: (residue.atoms.len() * residue_number + atom_number) as u64,
            residue_index: residue_number as u64,
            atom,
            residue,
            coord: grid_point,
            origin,
        }),
{
    proof {
        assert(residue.atoms.len() * residue_number <= u64::MAX) by (nonlinear_arith)
            requires
                residue.atoms.len() * residue_number + atom_number <= u64::MAX,
                atom_number >= 0,
        ;
    }
    CurrentAtom {
        atom_index: (residue.atoms.len() as u64) * (residue_number as u64) + (atom_number as u64),
        residue_index: residue_number as u64,
        atom,
        residue,
        coord: grid_point,
        origin,
    }
}

/// A base graphene molecule is only a carbon atom.
pub fn get_graphene_base<P>(carbon: P) -> (base: ResidueBase<P>)
    ensures
        base.code@ == "GRPH"@,
        base.atoms@.len() == 1,
        base.atoms@[0].code@ == "C"@,
        base.atoms@[0].position == carbon,
{
    let mut atoms: Vec<Atom<P>> = Vec::new();
    atoms.push(Atom { code: "C".to_owned(), position: carbon });
    ResidueBase { code: "GRPH".to_owned(), atoms }
}

/// A base silica molecule consists of three atoms: an oxygen, the silicon and
/// a second oxygen.
pub fn get_silica_base<P>(oxygen1: P, silicon: P, oxygen2: P) -> (base: ResidueBase<P>)
    ensures
        base.code@ == "SIO"@,
        base.atoms@.len() == 3,
        base.atoms@[0].code@ == "O1"@,
        base.atoms@[0].position == oxygen1,
        base.atoms@[1].code@ == "SI"@,
        base.atoms@[1].position == silicon,
        base.atoms@[2].code@ == "O2"@,
        base.atoms@[2].position == oxygen2,
{
    let mut atoms: Vec<Atom<P>> = Vec::new();
    atoms.push(Atom { code: "O1".to_owned(), position: oxygen1 });
    atoms.push(Atom { code: "SI".to_owned(), position: silicon });
    atoms.push(Atom { code: "O2".to_owned(), position: oxygen2 });
    ResidueBase { code: "SIO".to_owned(), atoms }
}

} // verus!
