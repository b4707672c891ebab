//! Reading the catalog of stable releases that `rust_releases` keeps, as the
//! newest-first list that a scan works on.

use crate::release::{newest_first, Channel, Release};
use crate::version::Version;
use vstd::prelude::*;

verus! {

/// The collection of stable releases that `rust_releases` builds from its
/// sources. Nothing of its inside is visible here; `stable_versions` names
/// what it holds.
#[verifier::external_type_specification]
#[verifier::external_body]
#[verifier::reject_recursive_types(C)]
pub struct ExStableReleases<C>(rust_releases::core::StableReleases<C>);

/// The versions that a collection of stable releases holds, in the order in
/// which it hands them out.
pub uninterp spec fn stable_versions(index: rust_releases::core::StableReleases<()>) -> Seq<Version>;

/// Each version precedes every later one.
pub open spec fn strictly_ascending(versions: Seq<Version>) -> bool {
    forall|i: int, j: int| 0 <= i < j < versions.len() ==> versions[i].precedes(versions[j])
}

/// Walks the collection with `StableReleases::iter` and copies the three
/// numbers of each release's version.
///
/// Trusted: the collection keeps its releases in an ordered set keyed by
/// version, and `iter` visits that set in ascending order, so no version
/// comes twice and each precedes the next.
#[verifier::external_body]
fn versions_ascending(index: &rust_releases::core::StableReleases<()>) -> (versions: Vec<Version>)
    ensures
        versions@ == stable_versions(*index),
        strictly_ascending(versions@),
{
    index.iter().map(|r| {
        let v = &r.version().version;
        Version::new(v.major(), v.minor(), v.patch())
    }).collect()
}

/// The stable releases of `index` as a catalog: newest first, each version
/// once.
pub fn catalog_newest_first(index: &rust_releases::core::StableReleases<()>) -> (catalog: Vec<
    Release,
>)
    ensures
        catalog@.len() == stable_versions(*index).len(),
        forall|i: int|
            0 <= i < catalog@.len() ==> catalog@[i] == (Release {
                version: stable_versions(*index)[catalog@.len() - 1 - i],
                channel: Channel::Stable,
            }),
        newest_first(catalog@),
{
    let versions = versions_ascending(index);
    let mut catalog: Vec<Release> = Vec::new();
    let mut left: usize = versions.len();
    while left > 0
        invariant
            left <= versions@.len(),
            catalog@.len() == versions@.len() - left,
            forall|i: int|
                0 <= i < catalog@.len() ==> catalog@[i] == (Release {
                    version: versions@[versions@.len() - 1 - i],
                    channel: Channel::Stable,
                }),
        decreases left,
    {
        left -= 1;
        catalog.push(Release::new_stable(versions[left]));
    }
    catalog
}

} // verus!
