use vstd::prelude::*;

verus! {

/// The role this worker plays, which determines the circuits it runs and
/// therefore the parameter degrees it needs.
#[derive(Clone, Copy, Debug, PartialEq, Eq, Structural)]
pub enum ProverType {
    Chunk,
    Batch,
}

} // verus!
