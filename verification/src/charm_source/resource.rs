//! Resources a charm needs at deploy time.

use vstd::prelude::*;

verus! {

/// A named external input a charm requires at deploy time.
#[derive(Debug, Clone)]
pub enum Resource {
    File {
        /// Description of the resource and its purpose
        description: Option<String>,
        /// The filename of the resource as it should appear in the filesystem
        filename: String,
    },
    OciImage {
        /// Description of the resource and its purpose
        description: Option<String>,
        /// Default source used when no override is configured
        upstream_source: Option<String>,
    },
}

} // verus!
