//! Sidecar containers a charm asks for when it targets Kubernetes.

use vstd::prelude::*;

verus! {

/// A base OS image a container can resolve to.
#[derive(Debug, Clone)]
pub struct ContainerBase {
    /// Name of the OS
    pub name: String,
    /// Channel of the OS in the form "track[/risk][/branch]"
    pub channel: String,
    /// List of architectures that this particular charm can run on
    pub architectures: Vec<String>,
}

/// A storage mount inside a container.
#[derive(Debug, Clone)]
pub struct ContainerMount {
    /// Name of the storage to mount from the charm storage
    pub storage: String,
    /// The location to mount the storage at
    pub location: String,
}

/// A container created from an OCI image resource.
#[derive(Debug, Clone)]
pub struct ResourceContainer {
    /// Reference for an entry in the resources mapping
    pub resource: String,
    /// List of mounted storages for this container
    pub mounts: Vec<ContainerMount>,
}

/// A container created from a list of bases.
#[derive(Debug, Clone)]
pub struct BaseContainer {
    /// Bases in descending order of preference
    pub bases: Vec<ContainerBase>,
    /// List of mounted storages for this container
    pub mounts: Vec<ContainerMount>,
}

/// A Kubernetes container for a charm: one of either resource or bases must
/// be specified.
#[derive(Debug, Clone)]
pub enum Container {
    Resource(ResourceContainer),
    Base(BaseContainer),
}

} // verus!
