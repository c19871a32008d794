//! A charm's metadata document, current generation.

use vstd::prelude::*;

use crate::kv::KVList;
use super::container::Container;
use super::device::Device;
use super::relation::Relation;
use super::resource::Resource;
use super::storage::Storage;

verus! {

/// A charm's metadata document
#[derive(Debug, Clone)]
pub struct Metadata {
    /// The name of the charm
    ///
    /// Determines the name administrators ultimately use to deploy the charm.
    pub name: String,
    /// A short, one-line description of the charm
    pub summary: String,
    /// A full description of the configuration layer
    pub description: String,
    /// A list of maintainers in the format "First Last <email>"
    pub maintainers: Vec<String>,
    /// A list of terms that any charm user must agree with
    pub terms: Vec<String>,
    /// True if the charm is meant to be deployed as a subordinate to a
    /// principal charm
    pub subordinate: bool,
    /// A map of containers to be created adjacent to the charm
    ///
    /// This field matters when the charm targets Kubernetes, where each of
    /// the specified containers is created as a sidecar to the charm in the
    /// same pod.
    pub containers: KVList<Container>,
    /// Additional resources that accompany the charm
    pub resources: KVList<Resource>,
    /// Map of relations provided by this charm
    pub provides: KVList<Relation>,
    /// Map of relations required by this charm
    pub requires: KVList<Relation>,
    /// Mutual relations between units/peers of this charm
    pub peer: KVList<Relation>,
    /// Storage requests for the charm
    pub storage: KVList<Storage>,
    /// Device requests for the charm, for example a GPU
    pub devices: KVList<Device>,
    /// Extra bindings for the charm, for example extra network interfaces;
    /// the names are all that matters
    pub extra_bindings: Vec<String>,
    /// If set, the charm is using the earlier metadata generation
    pub series: Option<Vec<String>>,
}

} // verus!
