//! Evidence on locked dependencies.
//!
//! Which packages the project reaches and what their archives hold are told apart, so that each can
//! be looked at on its own.

use vstd::prelude::*;

pub mod archive;
pub mod graph;
pub mod laws;
pub mod load;
pub mod order;
pub mod scan;
pub mod tarball;

verus! {

/// The largest number of packages that are looked at.
pub const MAX_LOCKED_PACKAGES: usize = 2048;

} // verus!
