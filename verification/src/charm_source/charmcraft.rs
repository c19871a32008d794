//! A charm's charmcraft document.

use vstd::prelude::*;

verus! {

/// One base OS a charm is built on or runs on.
#[derive(Debug, Clone)]
pub struct Base {
    pub name: String,
    pub channel: String,
}

/// Which bases a charm is built on and runs on.
#[derive(Debug, Clone)]
pub struct BaseSpec {
    pub build_on: Vec<Base>,
    pub run_on: Vec<Base>,
}

/// A charm's charmcraft document
#[derive(Debug, Clone)]
pub struct Charmcraft {
    pub bases: Vec<BaseSpec>,
    pub architectures: Vec<String>,
}

} // verus!
