//! Numbering of records in GROMOS coordinate files.

use vstd::prelude::*;

verus! {

/// GROMOS files hold residue and atom numbers in five digits: numbering wraps
/// around after 99,999.
pub const GROMOS_WRAP: u64 = 100_000;

/// The number written for the record with the given 0-based index: records are
/// counted from 1, and the count wraps around to 0 after 99,999.
pub open spec fn gromos_number_of(index: nat) -> nat {
    (index + 1) % (GROMOS_WRAP as nat)
}

/// Computes the number to write for the record with the given 0-based index.
pub fn gromos_number(index: u64) -> (number: u64)
    ensures
        number == gromos_number_of(index as nat),
        number < GROMOS_WRAP,
{
    (index % GROMOS_WRAP + 1) % GROMOS_WRAP
}

} // verus!
