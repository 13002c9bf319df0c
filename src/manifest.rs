//! Entries of the published list of archives.
use vstd::prelude::*;

verus! {

/// One published archive: its reference and what it holds.
pub struct Manifest {
    pub name: String,
    pub description: Option<String>,
}

} // verus!
