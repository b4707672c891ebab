//! Release versions, their precedence, and the inclusive range filter.

use vstd::prelude::*;

verus! {

/// A `major.minor.patch` release version.
#[derive(Clone, Copy, Debug, PartialEq, Eq, Structural)]
pub struct Version {
    pub major: u64,
    pub minor: u64,
    pub patch: u64,
}

impl Version {
    /// Strict precedence: the major numbers decide, then the minor numbers,
    /// then the patch numbers. Numbers are compared as numbers, never as text.
    pub open spec fn precedes(self, other: Version) -> bool {
        self.major < other.major || (self.major == other.major && (self.minor < other.minor || (
        self.minor == other.minor && self.patch < other.patch)))
    }

    /// `self` is `other` or precedes it.
    pub open spec fn at_most(self, other: Version) -> bool {
        self == other || self.precedes(other)
    }

    pub fn new(major: u64, minor: u64, patch: u64) -> (v: Version)
        ensures
            v == (Version { major, minor, patch }),
    {
        Version { major, minor, patch }
    }
}

/// The optional bound behind an optional reference.
pub open spec fn bound(limit: Option<&Version>) -> Option<Version> {
    match limit {
        Some(v) => Some(*v),
        None => None,
    }
}

/// Membership in the range that two optional inclusive bounds describe. An
/// absent bound does not constrain.
pub open spec fn within_bounds(v: Version, min: Option<Version>, max: Option<Version>) -> bool {
    &&& min matches Some(low) ==> low.at_most(v)
    &&& max matches Some(high) ==> v.at_most(high)
}

/// Compares two versions with `<=` of `rust_release::toolchain::RustVersion`.
///
/// Trusted: that type wraps three numbers, major, minor and patch, declared
/// in this order, and derives its order from them, so `<=` is the
/// lexicographic order on the triple. Each side is rebuilt from its three
/// numbers with `RustVersion::new`, which stores them as given.
#[verifier::external_body]
fn version_at_most(a: &Version, b: &Version) -> (r: bool)
    ensures
        r == a.at_most(*b),
{
    let left = rust_releases::core::rust_release::toolchain::RustVersion::new(a.major, a.minor, a.patch);
    let right = rust_releases::core::rust_release::toolchain::RustVersion::new(b.major, b.minor, b.patch);
    left <= right
}

/// Whether `current` lies within the optional inclusive bounds.
pub fn include_version(
    current: &Version,
    min_version: Option<&Version>,
    max_version: Option<&Version>,
) -> (r: bool)
    ensures
        r == within_bounds(*current, bound(min_version), bound(max_version)),
{
    match (min_version, max_version) {
        (Some(min), Some(max)) => version_at_most(min, current) && version_at_most(current, max),
        (Some(min), None) => version_at_most(min, current),
        (None, Some(max)) => version_at_most(current, max),
        (None, None) => true,
    }
}

/// Precedence is a strict total order: irreflexive, transitive, and any two
/// distinct versions are ordered one way or the other.
pub proof fn law_precedence_is_total(a: Version, b: Version, c: Version)
    ensures
        !a.precedes(a),
        a.precedes(b) && b.precedes(c) ==> a.precedes(c),
        a.precedes(b) || b.precedes(a) || a == b,
        !(a.precedes(b) && b.precedes(a)),
        a.at_most(b) <==> !b.precedes(a),
{
}

/// A version that equals the lower bound is included, whenever the range is
/// not empty (the lower bound does not exceed the upper one).
pub proof fn law_lower_bound_included(min: Version, max: Option<Version>)
    requires
        max matches Some(high) ==> min.at_most(high),
    ensures
        within_bounds(min, Some(min), max),
{
}

/// A version that equals the upper bound is included, whenever the range is
/// not empty (the lower bound does not exceed the upper one).
pub proof fn law_upper_bound_included(min: Option<Version>, max: Version)
    requires
        min matches Some(low) ==> low.at_most(max),
    ensures
        within_bounds(max, min, Some(max)),
{
}

/// A version strictly below the lower bound, or strictly above the upper
/// bound, is excluded.
pub proof fn law_outside_excluded(v: Version, min: Option<Version>, max: Option<Version>)
    requires
        (min matches Some(low) && v.precedes(low)) || (max matches Some(high) && high.precedes(v)),
    ensures
        !within_bounds(v, min, max),
{
}

} // verus!
