//! The compatibility scan: probe the candidate releases newest first, record
//! each success, and stop at the first failure.

use crate::release::Release;
use crate::version::Version;
use vstd::prelude::*;

verus! {

/// What the toolchain checker reports for one probed release.
#[derive(Clone, Debug, PartialEq, Eq)]
pub enum CheckStatus {
    /// The check command succeeded on the installed toolchain.
    Success { toolchain: String, version: Version },
    /// The check command itself failed on a correctly installed toolchain.
    Failure { toolchain: String, diagnostic: String },
}

/// The verdict of a scan.
#[derive(Clone, Debug, PartialEq, Eq)]
pub enum MinimalCompatibility {
    /// The oldest release probed so far on which the check succeeded.
    CapableToolchain { toolchain: String, version: Version },
    /// No probed release passed the check.
    NoCompatibleToolchains,
}

/// The verdict that one outcome stands for by itself.
pub open spec fn verdict_of(status: CheckStatus) -> MinimalCompatibility {
    match status {
        CheckStatus::Success { toolchain, version } => MinimalCompatibility::CapableToolchain {
            toolchain,
            version,
        },
        CheckStatus::Failure { .. } => MinimalCompatibility::NoCompatibleToolchains,
    }
}

impl CheckStatus {
    pub fn is_success(&self) -> (r: bool)
        ensures
            r == (self is Success),
    {
        match self {
            CheckStatus::Success { .. } => true,
            CheckStatus::Failure { .. } => false,
        }
    }
}

impl MinimalCompatibility {
    /// The version of the capable toolchain, if there is one.
    pub open spec fn spec_version(self) -> Option<Version> {
        match self {
            MinimalCompatibility::CapableToolchain { version, .. } => Some(version),
            MinimalCompatibility::NoCompatibleToolchains => None,
        }
    }

    /// The version of the capable toolchain, if there is one.
    pub fn version(&self) -> (v: Option<Version>)
        ensures
            v == self.spec_version(),
    {
        match self {
            MinimalCompatibility::CapableToolchain { version, .. } => Some(*version),
            MinimalCompatibility::NoCompatibleToolchains => None,
        }
    }

    /// The version of the capable toolchain. Only for a verdict that names
    /// one.
    pub fn unwrap_version(&self) -> (v: Version)
        requires
            self is CapableToolchain,
        ensures
            self.spec_version() == Some(v),
    {
        match self {
            MinimalCompatibility::CapableToolchain { version, .. } => *version,
            MinimalCompatibility::NoCompatibleToolchains => vstd::pervasive::unreached(),
        }
    }
}

impl From<CheckStatus> for MinimalCompatibility {
    fn from(from: CheckStatus) -> (r: Self) {
        match from {
            CheckStatus::Success { toolchain, version } => MinimalCompatibility::CapableToolchain {
                toolchain,
                version,
            },
            CheckStatus::Failure { .. } => MinimalCompatibility::NoCompatibleToolchains,
        }
    }
}

impl vstd::std_specs::convert::FromSpecImpl<CheckStatus> for MinimalCompatibility {
    open spec fn obeys_from_spec() -> bool {
        true
    }

    open spec fn from_spec(v: CheckStatus) -> Self {
        verdict_of(v)
    }
}

/// What the scanner asks of its driver next.
#[derive(Clone, Copy, Debug, PartialEq, Eq, Structural)]
pub enum ScanStep {
    /// Probe this release and record the outcome.
    Probe(Release),
    /// The scan is over; the verdict stands.
    Finished,
}

/// The state of one scan. The driver alternates `next_step` and `record`
/// until `next_step` answers `Finished`, and then takes the verdict.
pub struct Scanner {
    /// The releases to probe, newest first.
    pub releases: Vec<Release>,
    /// How many releases were probed with success.
    pub position: usize,
    /// Whether a probe failed.
    pub halted: bool,
    /// The verdict so far.
    pub verdict: MinimalCompatibility,
}

impl Scanner {
    /// The scan is over: a probe failed, or no release is left.
    pub open spec fn finished(&self) -> bool {
        self.halted || self.position >= self.releases@.len()
    }

    /// How many releases are still to be probed.
    pub open spec fn remaining(&self) -> nat {
        if self.finished() {
            0
        } else {
            (self.releases@.len() - self.position) as nat
        }
    }

    /// A scan of `releases` (newest first) that has probed nothing yet.
    pub fn new(releases: Vec<Release>) -> (s: Scanner)
        ensures
            s.releases == releases,
            s.position == 0,
            !s.halted,
            s.verdict == MinimalCompatibility::NoCompatibleToolchains,
    {
        Scanner {
            releases,
            position: 0,
            halted: false,
            verdict: MinimalCompatibility::NoCompatibleToolchains,
        }
    }

    /// The release to probe next, or `Finished`.
    pub fn next_step(&self) -> (step: ScanStep)
        ensures
            step == if self.finished() {
                ScanStep::Finished
            } else {
                ScanStep::Probe(self.releases@[self.position as int])
            },
    {
        if self.halted || self.position >= self.releases.len() {
            ScanStep::Finished
        } else {
            ScanStep::Probe(self.releases[self.position])
        }
    }

    /// Records the outcome of the probe that `next_step` asked for. A success
    /// replaces the verdict and moves on to the next older release; a failure
    /// ends the scan and leaves the verdict as it was. A finished scan takes
    /// no further outcome.
    pub fn record(&mut self, status: CheckStatus)
        ensures
            final(self).releases == old(self).releases,
            old(self).finished() ==> *final(self) == *old(self),
            !old(self).finished() && status is Success ==> {
                &&& final(self).verdict == verdict_of(status)
                &&& final(self).position == old(self).position + 1
                &&& !final(self).halted
            },
            !old(self).finished() && status is Failure ==> {
                &&& final(self).verdict == old(self).verdict
                &&& final(self).position == old(self).position
                &&& final(self).halted
            },
    {
        if self.halted || self.position >= self.releases.len() {
            return ;
        }
        if status.is_success() {
            self.verdict = MinimalCompatibility::from(status);
            self.position = self.position + 1;
        } else {
            self.halted = true;
        }
    }

    /// Ends the scan and hands out the verdict.
    pub fn finish(self) -> (verdict: MinimalCompatibility)
        ensures
            verdict == self.verdict,
    {
        self.verdict
    }
}

} // verus!
