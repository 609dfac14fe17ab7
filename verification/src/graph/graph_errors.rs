//! What can go wrong when working with the graph.

use vstd::prelude::*;
use crate::id::{EntityId, FieldId};

verus! {

/// The errors of graph operations.
#[derive(Debug, Clone, PartialEq)]
pub enum GraphError {
    EntityAlreadyExists(EntityId),
    EntityNotFound(EntityId),
    FieldNotFound(EntityId, FieldId),
    CyclicReference,
    MaxDepthExceeded,
    NotAFieldReference,
    NotAnEntityReference,
    GraphNotBuilt,
}

} // verus!
