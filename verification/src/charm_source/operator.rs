//! Schema of the earlier metadata generation, as the legacy reactive and
//! operator packaging formats declare it.

use vstd::prelude::*;

use crate::error::JujuError;
use crate::kv::KVList;
use crate::strutil::{
    digit_scan, digits_to_u32, digits_value, find_char, find_char_at, is_digit_char,
    lemma_digit_end,
};

verus! {

/// Kinds of resources the earlier generation declares.
#[derive(Debug, Clone, Copy, PartialEq, Eq, Structural)]
pub enum ResourceType {
    File,
    OciImage,
    Pypi,
    Url,
}

/// Scope of a given relation.
#[derive(Debug, Clone, Copy, PartialEq, Eq, Structural)]
pub enum RelationScope {
    Global,
    Container,
}

/// A resource of the earlier metadata generation.
#[derive(Debug, Clone)]
pub struct Resource {
    pub kind: ResourceType,
    pub description: String,
    pub auto_fetch: bool,
    pub upstream_source: Option<String>,
    pub filename: Option<String>,
}

/// A relation interface of the earlier metadata generation.
#[derive(Debug, Clone)]
pub struct Interface {
    pub interface: String,
    pub scope: Option<RelationScope>,
    pub schema: Option<String>,
    pub versions: Vec<String>,
}

/// How many storage instances may be requested.
#[derive(Debug, Clone)]
pub enum Range {
    Count(u32),
    Range { min: u32, max: Option<u32> },
}

/// A storage multiplicity wrapper.
#[derive(Debug, Clone)]
pub struct StorageMultiple {
    pub range: Range,
}

/// A storage request of the earlier metadata generation.
#[derive(Debug, Clone)]
pub enum Storage {
    Filesystem {
        description: String,
        location: String,
        minimum_size: String,
        multiple: StorageMultiple,
        read_only: bool,
        shared: bool,
    },
    Block { multiple: StorageMultiple },
}

/// How an operator charm's workload is deployed.
#[derive(Debug, Clone, Copy, PartialEq, Eq, Structural)]
pub enum DeploymentMode {
    Workload,
    Operator,
}

/// Deployment settings of the earlier metadata generation.
#[derive(Debug, Clone)]
pub struct Deployment {
    pub kind: Option<String>,
    pub service: Option<String>,
    pub daemonset: Option<bool>,
    pub min_version: Option<String>,
    pub mode: DeploymentMode,
}

/// A charm's metadata document, earlier generation.
#[derive(Debug, Clone)]
pub struct Metadata {
    /// Machine-friendly name of the charm
    pub name: String,
    /// Human-friendly name of the charm
    pub display_name: Option<String>,
    /// Tweetable summary of the charm
    pub summary: String,
    /// Long-form description of the charm
    pub description: String,
    /// List of charm maintainers
    pub maintainers: Vec<String>,
    /// List of arbitrary topic tags for the charm
    pub tags: Vec<String>,
    /// Which OS series this charm expects
    pub series: Vec<String>,
    /// Resources for the charm
    pub resources: KVList<Resource>,
    /// Which other charms this charm requires a relation to in order to run
    pub requires: KVList<Interface>,
    /// Which types of relations this charm provides
    pub provides: KVList<Interface>,
    /// Storage configuration for the charm
    pub storage: KVList<Storage>,
    /// Whether or not this charm is subordinate to another charm
    pub subordinate: bool,
    /// Deployment settings
    pub deployment: Option<Deployment>,
    /// Minimum platform version supported by the charm
    pub min_juju_version: Option<String>,
}

/// Config option of the earlier metadata generation.
#[derive(Debug, Clone)]
pub enum ConfigOption {
    String { default: Option<String>, description: String },
    Integer { default: i64, description: String },
    Boolean { default: bool, description: String },
}

/// A run of digits that names a number within the unsigned 32-bit range.
pub open spec fn counts_ok(s: Seq<char>) -> bool {
    &&& s.len() > 0
    &&& (forall|j: int| 0 <= j < s.len() ==> is_digit_char(s[j]))
    &&& digits_value(s) <= u32::MAX
}

/// Reads one side of a range text as a count.
fn parse_count(s: &str) -> (r: Option<u32>)
    ensures
        (r is Some) <==> counts_ok(s@),
        r matches Some(v) ==> v as int == digits_value(s@),
{
    let n = s.unicode_len();
    if n == 0 {
        return Option::None;
    }
    let e = digit_scan(s);
    proof {
        lemma_digit_end(s@);
    }
    if e < n {
        proof {
            assert(!is_digit_char(s@[e as int]));
        }
        return Option::None;
    }
    digits_to_u32(s)
}

/// Reads a storage multiplicity back from its text: a bare count `N`, or a
/// bounded range `N-M`; anything else is rejected rather than defaulted.
pub fn parse_range(input: &str) -> (r: Result<Range, JujuError>)
    ensures
        ({
            let p = find_char_at(input@, '-');
            if p == input@.len() {
                if counts_ok(input@) {
                    r matches Ok(rg) && (rg matches Range::Count(v) && v as int == digits_value(
                        input@,
                    ))
                } else {
                    r is Err
                }
            } else {
                let a = input@.take(p);
                let b = input@.skip(p + 1);
                if counts_ok(a) && counts_ok(b) {
                    r matches Ok(rg) && (rg matches Range::Range { min, max } && (min as int
                        == digits_value(a) && (max matches Some(mx) && mx as int == digits_value(
                        b,
                    ))))
                } else {
                    r is Err
                }
            }
        }),
{
    let n = input.unicode_len();
    let p = find_char(input, '-');
    if p == n {
        match parse_count(input) {
            Option::Some(v) => Ok(Range::Count(v)),
            Option::None => Err(JujuError::YamlError("storage range is not a count".to_owned())),
        }
    } else {
        let a = input.substring_char(0, p);
        let b = input.substring_char(p + 1, n);
        match (parse_count(a), parse_count(b)) {
            (Option::Some(min), Option::Some(mx)) => Ok(Range::Range { min, max: Some(mx) }),
            _ => Err(JujuError::YamlError("storage range is not a pair of counts".to_owned())),
        }
    }
}

} // verus!
