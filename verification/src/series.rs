//! The OS series a charm or bundle targets.

use vstd::prelude::*;

verus! {

/// Type of charm and/or bundle
#[derive(Debug, Clone, Copy, PartialEq, Eq, Structural)]
pub enum Series {
    /// If the charm/bundle runs on Kubernetes instead of a specific OS
    Kubernetes,
    // Ubuntu
    Oneiric,
    Precise,
    Quantal,
    Raring,
    Saucy,
    Trusty,
    Utopic,
    Vivid,
    Wily,
    Xenial,
    Yakkety,
    Zesty,
    Artful,
    Bionic,
    Cosmic,
    Disco,
    Eoan,
    // Windows
    Win2012hvr2,
    Win2012hv,
    Win2012r2,
    Win2012,
    Win7,
    Win8,
    Win81,
    Win10,
    Win2016,
    Win2016hv,
    Win2016nano,
    // CentOS
    Centos7,
}

/// Type of bundle
///
/// Currently only `kubernetes` is allowed as a value, as any other
/// types should actually be put under `series` instead of `bundle`.
#[derive(Debug, Clone, Copy, PartialEq, Eq, Structural)]
pub enum BundleType {
    Kubernetes,
}

} // verus!
