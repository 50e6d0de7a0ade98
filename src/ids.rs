use vstd::prelude::*;

verus! {

/// Identifier of a collection; assigned before first persistence.
#[derive(Clone, Copy, Debug, PartialEq, Eq, Structural, Hash)]
pub struct CollectionId(pub i64);

/// Identifier of the user who owns a collection.
#[derive(Clone, Copy, Debug, PartialEq, Eq, Structural, Hash)]
pub struct UserId(pub i64);

/// Identifier of a project, the member items of a collection.
#[derive(Clone, Copy, Debug, PartialEq, Eq, Structural, Hash)]
pub struct ProjectId(pub i64);

} // verus!
