//! Devices a charm requests, for example a GPU.

use vstd::prelude::*;

verus! {

/// A device request of a charm.
#[derive(Debug, Clone)]
pub struct Device {
    /// The kind of device requested
    pub kind: String,
    /// Description of the requested device
    pub description: Option<String>,
    /// Minimum number of devices required
    pub countmin: Option<u32>,
    /// Maximum number of devices required
    pub countmax: Option<u32>,
}

} // verus!
