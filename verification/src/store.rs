//! What the charm store reports about a published charm.

use vstd::prelude::*;

use crate::kv::KVList;

verus! {

/// Kinds of resources the store reports.
#[derive(Debug, Clone, Copy, PartialEq, Eq, Structural)]
pub enum ResourceType {
    OciImage,
}

/// A resource revision the store reports.
#[derive(Debug, Clone)]
pub struct Resource {
    pub name: String,
    pub kind: ResourceType,
    pub path: String,
    pub description: String,
    pub revision: u32,
    pub fingerprint: Option<String>,
    pub size: u32,
}

/// The metadata block of a store listing.
#[derive(Debug, Clone)]
pub struct ShowMetadata {
    pub deployment: KVList<String>,
    pub description: String,
    pub name: String,
    pub provides: KVList<KVList<String>>,
    pub requires: KVList<KVList<String>>,
    pub peers: KVList<KVList<String>>,
    pub resources: KVList<KVList<String>>,
    pub storage: KVList<KVList<String>>,
    pub subordinate: bool,
    pub summary: String,
    pub supported_series: Vec<String>,
    pub tags: Vec<String>,
    pub min_juju_version: String,
}

/// The name block of a store listing.
#[derive(Debug, Clone)]
pub struct IdName {
    pub name: String,
}

/// The revision block of a store listing.
#[derive(Debug, Clone)]
pub struct IdRevision {
    pub revision: u32,
}

/// The owner block of a store listing.
#[derive(Debug, Clone)]
pub struct OwnerUser {
    pub user: String,
}

/// The permissions block of a store listing.
#[derive(Debug, Clone)]
pub struct Perm {
    pub read: Vec<String>,
    pub write: Vec<String>,
}

/// The promulgation block of a store listing.
#[derive(Debug, Clone)]
pub struct Promulgated {
    pub promulgated: bool,
}

/// One published channel of a store listing.
#[derive(Debug, Clone)]
pub struct Published {
    pub channel: String,
    pub current: bool,
}

/// The supported series block of a store listing.
#[derive(Debug, Clone)]
pub struct SupportedSeries {
    pub supported_series: Vec<String>,
}

/// Everything the store reports about a published charm.
#[derive(Debug, Clone)]
pub struct Show {
    pub bugs_url: String,
    pub charm_metadata: ShowMetadata,
    pub homepage: String,
    pub id_name: IdName,
    pub id_revision: IdRevision,
    pub owner: OwnerUser,
    pub perm: Perm,
    pub promulgated: Promulgated,
    pub published: KVList<Vec<Published>>,
    pub supported_series: SupportedSeries,
    pub terms: Vec<String>,
}

} // verus!
