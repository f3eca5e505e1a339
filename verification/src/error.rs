use vstd::prelude::*;
use crate::ids::NodeId;

verus! {

/// Why a derived query failed. Stage errors are local to the query that
/// raised them: they never abort sibling queries and are never cached.
#[derive(Clone, Copy, Debug, PartialEq, Eq, Structural)]
pub enum StageError {
    /// The node is absent from the document index, or was removed and is
    /// therefore invisible to queries.
    MissingNode(NodeId),
    /// Assembling the node runs into itself through its own children.
    CycleDetected(NodeId),
    /// An application whose function type is not a function.
    NotAFunction(NodeId),
    /// An application whose arguments do not fit the function type.
    ArgumentMismatch(NodeId),
}

/// A failed derived query.
///
/// `stamp` is the engine's failure counter at the moment the failure was
/// produced; the counter advances with every failure until its space is
/// exhausted. A failure is never cached, so a repeated query recomputes and,
/// if it fails again, carries a fresh stamp: two occurrences of "the same"
/// error are distinguishable, and a fixed input can never be shadowed by an
/// old failure.
#[derive(Clone, Copy, Debug, PartialEq, Eq, Structural)]
pub struct KernelError {
    pub error: StageError,
    pub stamp: u64,
}

/// What a derived query returns: an arena handle or an error.
pub type KernelResult<T> = Result<T, KernelError>;

impl From<StageError> for KernelError {
    /// A bare error, before the engine has stamped it.
    fn from(error: StageError) -> (r: KernelError) {
        KernelError { error, stamp: 0 }
    }
}

impl vstd::std_specs::convert::FromSpecImpl<StageError> for KernelError {
    open spec fn obeys_from_spec() -> bool {
        true
    }

    open spec fn from_spec(error: StageError) -> KernelError {
        KernelError { error, stamp: 0 }
    }
}

} // verus!
