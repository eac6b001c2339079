//! Relocating hard-linked files: every former hard link of a moved file is
//! turned into a symbolic link to the single relocated copy.
//!
//! The library holds the decisions: which paths are links of which source,
//! whether discovery is complete, and which copy, removals and symbolic links
//! a relocation consists of. Performing them on a filesystem is left to the
//! caller.
use vstd::prelude::*;

pub mod counter;
pub mod inventory;
pub mod paths;
pub mod relocate;
pub mod laws;

verus! {

} // verus!
