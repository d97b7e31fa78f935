//! The one file-system type the library stores: `std::path::PathBuf`,
//! carried through opaquely. All path computation and I/O happen outside
//! the library.

use vstd::prelude::*;

verus! {

/// `std::path::PathBuf` declared for Verus: the library holds and hands
/// back such values without looking inside them.
#[verifier::external_type_specification]
#[verifier::external_body]
pub struct ExPathBuf(std::path::PathBuf);

/// Relies on `PathBuf::clone`: the copy equals the original.
#[verifier::external_body]
pub fn path_owned(p: &std::path::PathBuf) -> (r: std::path::PathBuf)
    ensures
        r == *p,
{
    p.clone()
}

} // verus!
