//! A charm's config document.

use vstd::prelude::*;

use crate::kv::KVList;

verus! {

/// Config option as defined in the charm's config document
#[derive(Debug, Clone)]
pub enum ConfigOption {
    /// String config option
    String { default: Option<String>, description: String },
    /// Integer config option
    Integer { default: i64, description: String },
    /// Boolean config option
    Boolean { default: bool, description: String },
}

/// A charm's config document
#[derive(Debug, Clone)]
pub struct Config {
    pub options: KVList<ConfigOption>,
}

} // verus!
