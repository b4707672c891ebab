//! Releases, the scan configuration, and the selection of the releases that a
//! scan will probe.

use crate::version::{bound, include_version, within_bounds, Version};
use vstd::prelude::*;

verus! {

/// The channel on which a release was published.
#[derive(Clone, Copy, Debug, PartialEq, Eq, Structural)]
pub enum Channel {
    Stable,
    Beta,
    Nightly,
}

/// One installable release of the toolchain.
#[derive(Clone, Copy, Debug, PartialEq, Eq, Structural)]
pub struct Release {
    pub version: Version,
    pub channel: Channel,
}

impl Release {
    pub fn new(version: Version, channel: Channel) -> (r: Release)
        ensures
            r == (Release { version, channel }),
    {
        Release { version, channel }
    }

    /// A release on the stable channel.
    pub fn new_stable(version: Version) -> (r: Release)
        ensures
            r == (Release { version, channel: Channel::Stable }),
    {
        Release { version, channel: Channel::Stable }
    }
}

/// What a scan is configured with; it is only read while a scan runs.
pub struct Config {
    pub minimum_version: Option<Version>,
    pub maximum_version: Option<Version>,
    pub include_all_patch_releases: bool,
    pub check_command: Vec<String>,
    pub target: Option<String>,
}

/// The releases of `releases` whose version lies within the bounds, in the
/// order in which `releases` holds them.
pub open spec fn retained(releases: Seq<Release>, min: Option<Version>, max: Option<Version>) -> Seq<
    Release,
> {
    releases.filter(|r: Release| within_bounds(r.version, min, max))
}

/// Each release is newer than every later one. Such a catalog holds no
/// version twice.
pub open spec fn newest_first(catalog: Seq<Release>) -> bool {
    forall|i: int, j: int|
        0 <= i < j < catalog.len() ==> catalog[j].version.precedes(catalog[i].version)
}

/// No release of `catalog` has the major and minor numbers of `r` and a
/// higher patch number.
pub open spec fn is_newest_patch(catalog: Seq<Release>, r: Release) -> bool {
    forall|j: int|
        0 <= j < catalog.len() && (#[trigger] catalog[j]).version.major == r.version.major
            && catalog[j].version.minor == r.version.minor ==> catalog[j].version.patch
            <= r.version.patch
}

/// The releases of `part` that are the newest patch of their minor version
/// within `catalog`, in the order of `part`.
pub open spec fn newest_among(part: Seq<Release>, catalog: Seq<Release>) -> Seq<Release> {
    part.filter(|r: Release| is_newest_patch(catalog, r))
}

/// The view of a catalog that holds, for each minor version, its newest
/// patch release only. The order of the catalog is kept.
pub open spec fn newest_patches(catalog: Seq<Release>) -> Seq<Release> {
    newest_among(catalog, catalog)
}

/// The view of the catalog that the configuration selects: every release, or
/// the newest patch of each minor version.
pub open spec fn selected_view(config: Config, catalog: Seq<Release>) -> Seq<Release> {
    if config.include_all_patch_releases {
        catalog
    } else {
        newest_patches(catalog)
    }
}

/// The releases that a scan under `config` probes, in the order of the
/// catalog: the selected view, narrowed to the configured version bounds.
pub open spec fn candidates(config: Config, catalog: Seq<Release>) -> Seq<Release> {
    retained(selected_view(config, catalog), config.minimum_version, config.maximum_version)
}

/// Keeps the releases whose version lies within the optional inclusive
/// bounds. The order of the catalog is kept.
pub fn included_releases(
    releases: &Vec<Release>,
    min_version: Option<&Version>,
    max_version: Option<&Version>,
) -> (kept: Vec<Release>)
    ensures
        kept@ == retained(releases@, bound(min_version), bound(max_version)),
{
    let mut kept: Vec<Release> = Vec::new();
    let mut i: usize = 0;
    proof {
        reveal(Seq::filter);
        assert(releases@.take(0) =~= Seq::<Release>::empty());
    }
    while i < releases.len()
        invariant
            i <= releases@.len(),
            kept@ == retained(releases@.take(i as int), bound(min_version), bound(max_version)),
        decreases releases@.len() - i,
    {
        let release = releases[i];
        let keep = include_version(&release.version, min_version, max_version);
        proof {
            reveal(Seq::filter);
            assert(releases@.take(i + 1).drop_last() =~= releases@.take(i as int));
            assert(releases@.take(i + 1).last() == release);
        }
        if keep {
            kept.push(release);
        }
        i += 1;
    }
    proof {
        assert(releases@.take(i as int) =~= releases@);
    }
    kept
}

/// The releases that a scan under `config` will probe: the view of the
/// catalog that `config` selects, narrowed to the configured version bounds.
pub fn candidate_releases(config: &Config, catalog: &Vec<Release>) -> (kept: Vec<Release>)
    ensures
        kept@ == candidates(*config, catalog@),
{
    let min_version = match &config.minimum_version {
        Some(v) => Some(v),
        None => None,
    };
    let max_version = match &config.maximum_version {
        Some(v) => Some(v),
        None => None,
    };
    if config.include_all_patch_releases {
        included_releases(catalog, min_version, max_version)
    } else {
        let latest = latest_patch_releases(catalog);
        included_releases(&latest, min_version, max_version)
    }
}

/// Whether `release` is the newest patch of its minor version in `catalog`.
pub fn is_latest_patch(catalog: &Vec<Release>, release: &Release) -> (r: bool)
    ensures
        r == is_newest_patch(catalog@, *release),
{
    let mut j: usize = 0;
    while j < catalog.len()
        invariant
            j <= catalog@.len(),
            is_newest_patch(catalog@.take(j as int), *release),
        decreases catalog@.len() - j,
    {
        let other = catalog[j].version;
        if other.major == release.version.major && other.minor == release.version.minor
            && other.patch > release.version.patch {
            return false;
        }
        proof {
            let before = catalog@.take(j as int);
            let after = catalog@.take(j + 1);
            assert forall|k: int|
                0 <= k < after.len() && (#[trigger] after[k]).version.major
                    == release.version.major && after[k].version.minor
                    == release.version.minor implies after[k].version.patch
                <= release.version.patch by {
                if k < j {
                    assert(after[k] == before[k]);
                }
            }
        }
        j += 1;
    }
    proof {
        assert(catalog@.take(j as int) =~= catalog@);
    }
    true
}

/// Narrows a catalog to one release for each minor version: its newest
/// patch. The order of the catalog is kept.
pub fn latest_patch_releases(catalog: &Vec<Release>) -> (kept: Vec<Release>)
    ensures
        kept@ == newest_patches(catalog@),
{
    let mut kept: Vec<Release> = Vec::new();
    let mut i: usize = 0;
    proof {
        reveal(Seq::filter);
        assert(catalog@.take(0) =~= Seq::<Release>::empty());
    }
    while i < catalog.len()
        invariant
            i <= catalog@.len(),
            kept@ == newest_among(catalog@.take(i as int), catalog@),
        decreases catalog@.len() - i,
    {
        let release = catalog[i];
        let keep = is_latest_patch(catalog, &release);
        proof {
            reveal(Seq::filter);
            assert(catalog@.take(i + 1).drop_last() =~= catalog@.take(i as int));
            assert(catalog@.take(i + 1).last() == release);
        }
        if keep {
            kept.push(release);
        }
        i += 1;
    }
    proof {
        assert(catalog@.take(i as int) =~= catalog@);
    }
    kept
}

/// What the filter keeps: exactly the releases within the bounds, each as
/// often as the catalog holds it.
pub proof fn law_retained_members(
    releases: Seq<Release>,
    min: Option<Version>,
    max: Option<Version>,
    r: Release,
)
    ensures
        retained(releases, min, max).contains(r) <==> releases.contains(r) && within_bounds(
            r.version,
            min,
            max,
        ),
        retained(releases, min, max).len() <= releases.len(),
{
    let pred = |r: Release| within_bounds(r.version, min, max);
    let kept = releases.filter(pred);
    releases.lemma_filter_len(pred);
    if kept.contains(r) {
        let i = choose|i: int| 0 <= i < kept.len() && kept[i] == r;
        releases.lemma_filter_pred(pred, i);
        releases.lemma_filter_contains_rev(pred, r);
    }
    if releases.contains(r) && within_bounds(r.version, min, max) {
        let i = choose|i: int| 0 <= i < releases.len() && releases[i] == r;
        releases.lemma_filter_contains(pred, i);
    }
}

/// Filtering is idempotent: filtering what a filter kept, with the same
/// bounds, keeps all of it.
pub proof fn law_retained_idempotent(
    releases: Seq<Release>,
    min: Option<Version>,
    max: Option<Version>,
)
    ensures
        retained(retained(releases, min, max), min, max) == retained(releases, min, max),
    decreases releases.len(),
{
    reveal(Seq::filter);
    if releases.len() > 0 {
        law_retained_idempotent(releases.drop_last(), min, max);
        let rest = retained(releases.drop_last(), min, max);
        if within_bounds(releases.last().version, min, max) {
            assert(rest.push(releases.last()).drop_last() =~= rest);
        }
    }
}

/// Two filters may be applied in either order: the result is the same.
pub proof fn law_retained_commutes(
    releases: Seq<Release>,
    min_a: Option<Version>,
    max_a: Option<Version>,
    min_b: Option<Version>,
    max_b: Option<Version>,
)
    ensures
        retained(retained(releases, min_a, max_a), min_b, max_b) == retained(
            retained(releases, min_b, max_b),
            min_a,
            max_a,
        ),
    decreases releases.len(),
{
    reveal(Seq::filter);
    if releases.len() > 0 {
        law_retained_commutes(releases.drop_last(), min_a, max_a, min_b, max_b);
        let rest_a = retained(releases.drop_last(), min_a, max_a);
        let rest_b = retained(releases.drop_last(), min_b, max_b);
        assert(rest_a.push(releases.last()).drop_last() =~= rest_a);
        assert(rest_b.push(releases.last()).drop_last() =~= rest_b);
    }
}

/// In the narrowed view, two releases with the same major and minor numbers
/// have the same patch number: each minor version is there with one patch
/// level only.
pub proof fn law_one_patch_for_each_minor(catalog: Seq<Release>, a: Release, b: Release)
    requires
        newest_patches(catalog).contains(a),
        newest_patches(catalog).contains(b),
        a.version.major == b.version.major,
        a.version.minor == b.version.minor,
    ensures
        a.version.patch == b.version.patch,
{
    let pred = |r: Release| is_newest_patch(catalog, r);
    let kept = catalog.filter(pred);
    let i = choose|i: int| 0 <= i < kept.len() && kept[i] == a;
    let j = choose|j: int| 0 <= j < kept.len() && kept[j] == b;
    catalog.lemma_filter_pred(pred, i);
    catalog.lemma_filter_pred(pred, j);
    catalog.lemma_filter_contains_rev(pred, a);
    catalog.lemma_filter_contains_rev(pred, b);
    let m = choose|m: int| 0 <= m < catalog.len() && catalog[m] == a;
    let n = choose|n: int| 0 <= n < catalog.len() && catalog[n] == b;
    assert(catalog[m].version.patch <= b.version.patch);
    assert(catalog[n].version.patch <= a.version.patch);
}

proof fn lemma_filter_keeps_newest_first(catalog: Seq<Release>, pred: spec_fn(Release) -> bool)
    requires
        newest_first(catalog),
    ensures
        newest_first(catalog.filter(pred)),
    decreases catalog.len(),
{
    reveal(Seq::filter);
    if catalog.len() > 0 {
        let front = catalog.drop_last();
        assert(newest_first(front)) by {
            assert forall|i: int, j: int| 0 <= i < j < front.len() implies front[j].version.precedes(
                front[i].version,
            ) by {
                assert(front[i] == catalog[i] && front[j] == catalog[j]);
            }
        }
        lemma_filter_keeps_newest_first(front, pred);
        let kept = front.filter(pred);
        if pred(catalog.last()) {
            let out = kept.push(catalog.last());
            assert forall|i: int, j: int| 0 <= i < j < out.len() implies out[j].version.precedes(
                out[i].version,
            ) by {
                if j < kept.len() {
                    assert(out[i] == kept[i] && out[j] == kept[j]);
                } else {
                    assert(kept.contains(kept[i]));
                    front.lemma_filter_contains_rev(pred, kept[i]);
                    let m = choose|m: int| 0 <= m < front.len() && front[m] == kept[i];
                    assert(catalog[m] == front[m]);
                    assert(catalog[catalog.len() - 1].version.precedes(catalog[m].version));
                }
            }
        }
    }
}

/// Selecting and filtering keep the order of the catalog: the releases that
/// a scan probes, taken from a newest-first catalog, are newest first, and
/// none of them comes twice.
pub proof fn law_candidates_newest_first(config: Config, catalog: Seq<Release>)
    requires
        newest_first(catalog),
    ensures
        newest_first(newest_patches(catalog)),
        newest_first(retained(catalog, config.minimum_version, config.maximum_version)),
        newest_first(candidates(config, catalog)),
        forall|i: int, j: int|
            0 <= i < j < candidates(config, catalog).len() ==> candidates(config, catalog)[i].version
                != candidates(config, catalog)[j].version,
{
    lemma_filter_keeps_newest_first(catalog, |r: Release| is_newest_patch(catalog, r));
    lemma_filter_keeps_newest_first(
        selected_view(config, catalog),
        |r: Release| within_bounds(r.version, config.minimum_version, config.maximum_version),
    );
    lemma_filter_keeps_newest_first(
        catalog,
        |r: Release| within_bounds(r.version, config.minimum_version, config.maximum_version),
    );
    let probed = candidates(config, catalog);
    assert forall|i: int, j: int| 0 <= i < j < probed.len() implies probed[i].version
        != probed[j].version by {
        assert(probed[j].version.precedes(probed[i].version));
    }
}

} // verus!
