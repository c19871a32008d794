//! Schema of the current sidecar metadata generation.

use vstd::prelude::*;

use crate::kv::KVList;

verus! {

/// Config option of the sidecar generation.
#[derive(Debug, Clone)]
pub enum ConfigOption {
    String { default: Option<String>, description: String },
    Integer { default: i64, description: String },
    Boolean { default: bool, description: String },
}

/// A sidecar container backed by an OCI image resource.
#[derive(Debug, Clone)]
pub struct Container {
    /// Backing oci-image resource
    pub resource: String,
}

/// Kinds of resources the sidecar generation declares.
#[derive(Debug, Clone, Copy, PartialEq, Eq, Structural)]
pub enum ResourceType {
    File,
    OciImage,
    Pypi,
    Url,
}

/// A resource of the sidecar generation.
#[derive(Debug, Clone)]
pub struct Resource {
    pub kind: ResourceType,
    pub description: String,
    pub upstream_source: Option<String>,
}

/// Scope of a given relation.
#[derive(Debug, Clone, Copy, PartialEq, Eq, Structural)]
pub enum RelationScope {
    Global,
    Container,
}

/// A relation interface of the sidecar generation.
#[derive(Debug, Clone)]
pub struct Interface {
    pub interface: String,
    pub scope: Option<RelationScope>,
    pub schema: Option<String>,
    pub versions: Vec<String>,
}

/// A charm's metadata document, sidecar generation.
#[derive(Debug, Clone)]
pub struct Metadata {
    /// Machine-friendly name of the charm
    pub name: String,
    /// Long-form description of the charm
    pub description: String,
    /// Tweetable summary of the charm
    pub summary: String,
    /// Containers for the charm
    pub containers: KVList<Container>,
    /// Resources for the charm
    pub resources: KVList<Resource>,
    /// Which other charms this charm requires a relation to in order to run
    pub requires: KVList<Interface>,
    /// Which types of relations this charm provides
    pub provides: KVList<Interface>,
}

} // verus!
