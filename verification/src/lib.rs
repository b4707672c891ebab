//! Search for the oldest toolchain release on which a check command still
//! succeeds: a range filter over a release catalog, and a scanner that probes
//! the retained releases newest first and stops at the first failure.

pub mod catalog;
pub mod release;
pub mod run;
pub mod scan;
pub mod version;
