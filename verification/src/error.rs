//! The errors that the library's operations report.

use vstd::prelude::*;

verus! {

/// Everything that can go wrong while working with bundles, charms and the
/// local client configuration. Variants carry plain text detail so that a
/// caller can print them.
#[derive(Debug, Clone)]
pub enum JujuError {
    /// Reading or writing a file failed; carries the report.
    IOError(String),
    /// A document could not be decoded or encoded; carries the report.
    YamlError(String),
    /// The named controller is not configured.
    ControllerNotFound(String),
    /// No controller name was given and none is active.
    NoActiveController,
    /// The named model (second) is not found in the named controller (first).
    ModelNotFound(String, String),
    /// The model for the named controller could not be determined.
    UnknownModel(String),
    /// The named resource (first) has neither a configured value nor a
    /// default for the named charm (second).
    ResourceNotFound(String, String),
    /// An external tool (first) failed; carries what it reported (second).
    SubcommandError(String, String),
    /// A charm archive could not be read; carries the report.
    ZipError(String),
    /// The named application has neither a charm identifier nor a source.
    MissingSourceError(String),
    /// The named applications are not in the bundle.
    ApplicationNotFound(String),
    /// The path does not hold a recognized charm source variant.
    WrongCharmTypeError,
}

} // verus!
