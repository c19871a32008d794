//! Storage a charm requests.

use vstd::prelude::*;

verus! {

/// A storage request of a charm.
#[derive(Debug, Clone)]
pub enum Storage {
    Filesystem {
        /// Description of the storage requested
        description: Option<String>,
        /// The mount location for filesystem stores
        location: Option<String>,
        /// Indicates if all units of the application share the storage
        shared: bool,
        /// Indicates if the storage should be made read-only where possible
        read_only: bool,
        /// The number of storage instances to be requested
        multiple: Option<String>,
        /// Minimum size of requested storage
        minimum_size: Option<String>,
        /// List of properties; the only supported value is `transient`
        properties: Vec<String>,
    },
    Block {
        /// Description of the storage requested
        description: Option<String>,
        /// The mount location for filesystem stores
        location: Option<String>,
        /// Indicates if all units of the application share the storage
        shared: bool,
        /// Indicates if the storage should be made read-only where possible
        read_only: bool,
        /// The number of storage instances to be requested
        multiple: Option<String>,
        /// Minimum size of requested storage
        minimum_size: Option<String>,
        /// List of properties; the only supported value is `transient`
        properties: Vec<String>,
    },
}

} // verus!
