use vstd::prelude::*;

pub mod config;
pub mod degrees;
pub mod params;
pub mod types;

verus! {

/// A circuit size: the log2 of the number of rows, identifying which
/// structured reference string a circuit needs.
pub type Degree = u32;

} // verus!
