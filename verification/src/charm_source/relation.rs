//! Relations a charm provides or requires.

use vstd::prelude::*;

verus! {

/// Scope of a given relation
#[derive(Debug, Clone, Copy, PartialEq, Eq, Structural)]
pub enum RelationScope {
    Global,
    Container,
}

/// Relation between charms
#[derive(Debug, Clone)]
pub struct Relation {
    /// The interface schema that this relation conforms to
    pub interface: String,
    /// Maximum number of supported connections to this relation endpoint
    pub limit: Option<u32>,
    /// Defines if the relation is required
    ///
    /// Informational only.
    pub optional: bool,
    /// The scope of the relation; global when absent
    pub scope: Option<RelationScope>,
    /// Which schema this relation conforms to
    ///
    /// Distinct from `interface`, which doesn't actually carry a notion of
    /// schemas.
    pub schema: Option<String>,
    /// Which schema versions this charm accepts
    pub versions: Vec<String>,
}

} // verus!
