use vstd::prelude::*;

verus! {

/// The kinds of failure that the inference core reports.
#[derive(Debug, Clone, Copy, PartialEq, Eq, Structural)]
pub enum ModelError {
    /// Missing or malformed metadata, or an inconsistent adapter ordering.
    Config,
    /// Head or dimension counts that do not divide, or tensors of the wrong extent.
    Shape,
    /// A cache or orchestration operation issued in a state that forbids it.
    State,
}

} // verus!
