use cargo_msrv::release::{Config, Release};
use cargo_msrv::run::{conclude, determine_msrv, run_cargo_msrv, test_against_releases_linearly, CargoMSRVError};
use cargo_msrv::scan::{CheckStatus, MinimalCompatibility, ScanStep, Scanner};
use cargo_msrv::version::Version;

fn v(minor: u64) -> Version {
    Version::new(1, minor, 0)
}

fn stable(minors: &[u64]) -> Vec<Release> {
    minors.iter().map(|m| Release::new_stable(v(*m))).collect()
}

fn success(minor: u64) -> CheckStatus {
    CheckStatus::Success { toolchain: format!("1.{}.0-x86_64-unknown-linux-gnu", minor), version: v(minor) }
}

fn failure(minor: u64) -> CheckStatus {
    CheckStatus::Failure {
        toolchain: format!("1.{}.0-x86_64-unknown-linux-gnu", minor),
        diagnostic: "error[E0658]: use of unstable library feature".to_string(),
    }
}

fn capable(minor: u64) -> MinimalCompatibility {
    MinimalCompatibility::CapableToolchain {
        toolchain: format!("1.{}.0-x86_64-unknown-linux-gnu", minor),
        version: v(minor),
    }
}

fn config(words: &[&str]) -> Config {
    Config {
        minimum_version: None,
        maximum_version: None,
        include_all_patch_releases: false,
        check_command: words.iter().map(|w| w.to_string()).collect(),
        target: Some("x86_64-unknown-linux-gnu".to_string()),
    }
}

/// Drives a scanner the way a program does: ask, probe, record.
fn drive<F>(catalog: Vec<Release>, mut check: F) -> Result<(MinimalCompatibility, Vec<Version>), String>
where
    F: FnMut(&Version) -> Result<CheckStatus, String>,
{
    let mut probed = Vec::new();
    let mut scanner = Scanner::new(catalog);
    loop {
        match scanner.next_step() {
            ScanStep::Finished => return Ok((scanner.finish(), probed)),
            ScanStep::Probe(release) => {
                probed.push(release.version);
                let status = check(&release.version)?;
                scanner.record(status);
            }
        }
    }
}

#[test]
fn oldest_passing_release_is_the_verdict() {
    let catalog = stable(&[50, 49, 48]);
    let script: Vec<Result<CheckStatus, String>> = vec![Ok(success(50)), Ok(success(49)), Ok(failure(48))];
    let verdict = determine_msrv(&config(&["cargo", "build"]), &catalog, script);
    assert_eq!(verdict, Ok(capable(49)));
}

#[test]
fn oldest_passing_release_with_a_driven_scanner() {
    let (verdict, probed) = drive(stable(&[50, 49, 48]), |version| {
        if version.minor >= 49 {
            Ok(success(version.minor))
        } else {
            Ok(failure(version.minor))
        }
    })
    .unwrap();
    assert_eq!(verdict, capable(49));
    assert_eq!(verdict.unwrap_version(), v(49));
    assert_eq!(probed, vec![v(50), v(49), v(48)]);
}

#[test]
fn single_failing_release() {
    let catalog = stable(&[50]);
    let script: Vec<Result<CheckStatus, String>> = vec![Ok(failure(50))];
    let verdict = determine_msrv(&config(&["cargo", "build"]), &catalog, script);
    assert_eq!(verdict, Ok(MinimalCompatibility::NoCompatibleToolchains));

    let (verdict, probed) = drive(stable(&[50]), |version| Ok(failure(version.minor))).unwrap();
    assert_eq!(verdict, MinimalCompatibility::NoCompatibleToolchains);
    assert_eq!(probed, vec![v(50)]);
}

#[test]
fn checker_error_aborts_the_scan() {
    let catalog = stable(&[50, 49, 48]);
    let script: Vec<Result<CheckStatus, String>> =
        vec![Ok(success(50)), Err("rustup: could not install 1.49.0".to_string()), Ok(success(48))];
    let result = determine_msrv(&config(&["cargo", "build"]), &catalog, script);
    assert_eq!(result, Err("rustup: could not install 1.49.0".to_string()));
}

#[test]
fn checker_error_with_a_driven_scanner() {
    let mut calls = 0;
    let result = drive(stable(&[50, 49, 48]), |version| {
        calls += 1;
        if calls == 2 {
            Err("rustup: could not install 1.49.0".to_string())
        } else {
            Ok(success(version.minor))
        }
    });
    assert_eq!(result, Err("rustup: could not install 1.49.0".to_string()));
    assert_eq!(calls, 2);
}

#[test]
fn checker_error_is_not_a_verdict() {
    let catalog = stable(&[50, 49]);
    let script: Vec<Result<CheckStatus, u32>> = vec![Err(7), Ok(success(49))];
    let result = run_cargo_msrv(&config(&["cargo", "check"]), &catalog, script);
    assert_eq!(result, Err(CargoMSRVError::Check(7)));
}

#[test]
fn known_limitation_scan_stops_at_a_failing_newest_release() {
    // Compatibility is taken to be monotonic: once a release fails, no older
    // release is probed, even one that would pass.
    let catalog = stable(&[50, 49]);
    let script: Vec<Result<CheckStatus, String>> = vec![Ok(failure(50)), Ok(success(49))];
    let verdict = determine_msrv(&config(&["cargo", "build"]), &catalog, script);
    assert_eq!(verdict, Ok(MinimalCompatibility::NoCompatibleToolchains));

    let (verdict, probed) = drive(stable(&[50, 49]), |version| {
        if version.minor == 50 {
            Ok(failure(50))
        } else {
            Ok(success(version.minor))
        }
    })
    .unwrap();
    assert_eq!(verdict, MinimalCompatibility::NoCompatibleToolchains);
    assert_eq!(probed, vec![v(50)]);
}

#[test]
fn regression_in_the_middle_hides_older_passing_releases() {
    let catalog = stable(&[51, 50, 49]);
    let script: Vec<Result<CheckStatus, String>> = vec![Ok(success(51)), Ok(failure(50)), Ok(success(49))];
    let verdict = determine_msrv(&config(&["cargo", "build"]), &catalog, script);
    assert_eq!(verdict, Ok(capable(51)));
}

#[test]
fn every_release_passing_gives_the_oldest() {
    let catalog = stable(&[50, 49, 48]);
    let script: Vec<Result<CheckStatus, String>> = vec![Ok(success(50)), Ok(success(49)), Ok(success(48))];
    let verdict = determine_msrv(&config(&["cargo", "build"]), &catalog, script);
    assert_eq!(verdict, Ok(capable(48)));
}

#[test]
fn empty_catalog_gives_no_compatible_toolchain() {
    let script: Vec<Result<CheckStatus, String>> = vec![Ok(success(50))];
    let verdict = determine_msrv(&config(&["cargo", "build"]), &Vec::new(), script);
    assert_eq!(verdict, Ok(MinimalCompatibility::NoCompatibleToolchains));
    let (verdict, probed) = drive(Vec::new(), |version| Ok(success(version.minor))).unwrap();
    assert_eq!(verdict, MinimalCompatibility::NoCompatibleToolchains);
    assert!(probed.is_empty());
}

#[test]
fn answers_beyond_the_catalog_are_not_taken() {
    let catalog = stable(&[50, 49]);
    let script: Vec<Result<CheckStatus, String>> =
        vec![Ok(success(50)), Ok(success(49)), Err("never asked".to_string())];
    let verdict = determine_msrv(&config(&["cargo", "build"]), &catalog, script);
    assert_eq!(verdict, Ok(capable(49)));
}

#[test]
fn a_script_that_runs_out_ends_the_scan() {
    let catalog = stable(&[50, 49, 48]);
    let script: Vec<Result<CheckStatus, String>> = vec![Ok(success(50))];
    let verdict = determine_msrv(&config(&["cargo", "build"]), &catalog, script);
    assert_eq!(verdict, Ok(capable(50)));
}

#[test]
fn scan_probes_only_releases_within_the_bounds() {
    let mut cfg = config(&["cargo", "build"]);
    cfg.minimum_version = Some(v(49));
    cfg.maximum_version = Some(v(50));
    cfg.include_all_patch_releases = true;
    let all = stable(&[51, 50, 49, 48]);
    let script: Vec<Result<CheckStatus, String>> = vec![Ok(success(50)), Ok(success(49)), Ok(success(48))];
    let verdict = determine_msrv(&cfg, &all, script);
    assert_eq!(verdict, Ok(capable(49)));
}

#[test]
fn scripted_scan_resumes_a_scanner() {
    let mut scanner = Scanner::new(stable(&[50, 49, 48]));
    scanner.record(success(50));
    let script: Vec<Result<CheckStatus, String>> = vec![Ok(success(49)), Ok(failure(48))];
    assert_eq!(test_against_releases_linearly(&mut scanner, script), Ok(()));
    assert_eq!(scanner.position, 2);
    assert!(scanner.halted);
    assert_eq!(scanner.next_step(), ScanStep::Finished);
    assert_eq!(scanner.finish(), capable(49));
}

#[test]
fn scripted_scan_keeps_the_verdict_on_error() {
    let mut scanner = Scanner::new(stable(&[50, 49, 48]));
    let script: Vec<Result<CheckStatus, String>> = vec![Ok(success(50)), Err("no network".to_string())];
    assert_eq!(test_against_releases_linearly(&mut scanner, script), Err("no network".to_string()));
    assert_eq!(scanner.position, 1);
    assert!(!scanner.halted);
    assert_eq!(scanner.verdict, capable(50));
}

#[test]
fn scanner_steps_through_the_catalog_newest_first() {
    let mut scanner = Scanner::new(stable(&[50, 49]));
    assert_eq!(scanner.verdict, MinimalCompatibility::NoCompatibleToolchains);
    assert_eq!(scanner.next_step(), ScanStep::Probe(Release::new_stable(v(50))));
    scanner.record(success(50));
    assert_eq!(scanner.verdict, capable(50));
    assert_eq!(scanner.next_step(), ScanStep::Probe(Release::new_stable(v(49))));
    scanner.record(success(49));
    assert_eq!(scanner.next_step(), ScanStep::Finished);
    assert_eq!(scanner.finish(), capable(49));
}

#[test]
fn finished_scanner_takes_no_further_outcome() {
    let mut scanner = Scanner::new(stable(&[50, 49]));
    scanner.record(success(50));
    scanner.record(failure(49));
    assert_eq!(scanner.next_step(), ScanStep::Finished);
    scanner.record(success(48));
    assert_eq!(scanner.position, 1);
    assert!(scanner.halted);
    assert_eq!(scanner.finish(), capable(50));

    let mut exhausted = Scanner::new(stable(&[50]));
    exhausted.record(success(50));
    exhausted.record(failure(49));
    assert!(!exhausted.halted);
    assert_eq!(exhausted.finish(), capable(50));
}

#[test]
fn verdict_from_check_status() {
    assert_eq!(MinimalCompatibility::from(success(50)), capable(50));
    assert_eq!(MinimalCompatibility::from(failure(50)), MinimalCompatibility::NoCompatibleToolchains);
    let into: MinimalCompatibility = success(49).into();
    assert_eq!(into, capable(49));
}

#[test]
fn verdict_version() {
    assert_eq!(capable(49).unwrap_version(), v(49));
    assert_eq!(capable(49).version(), Some(v(49)));
    assert_eq!(MinimalCompatibility::NoCompatibleToolchains.version(), None);
    assert!(success(1).is_success());
    assert!(!failure(1).is_success());
}

#[test]
fn no_compatible_toolchain_names_the_command() {
    let result = conclude::<String>(&config(&["cargo", "build", "--all"]), MinimalCompatibility::NoCompatibleToolchains);
    assert_eq!(
        result,
        Err(CargoMSRVError::UnableToFindAnyGoodVersion { command: "cargo build --all".to_string() })
    );
    let single = conclude::<String>(&config(&["make"]), MinimalCompatibility::NoCompatibleToolchains);
    assert_eq!(single, Err(CargoMSRVError::UnableToFindAnyGoodVersion { command: "make".to_string() }));
    let empty = conclude::<String>(&config(&[]), MinimalCompatibility::NoCompatibleToolchains);
    assert_eq!(empty, Err(CargoMSRVError::UnableToFindAnyGoodVersion { command: String::new() }));
}

#[test]
fn capable_toolchain_concludes_with_success() {
    let result = conclude::<String>(&config(&["cargo", "build"]), capable(49));
    assert_eq!(result, Ok(capable(49)));
}

#[test]
fn whole_run_reports_the_verdict_or_the_command() {
    let catalog = stable(&[50, 49, 48]);
    let passing: Vec<Result<CheckStatus, String>> = vec![Ok(success(50)), Ok(failure(49))];
    assert_eq!(run_cargo_msrv(&config(&["cargo", "build"]), &catalog, passing), Ok(capable(50)));
    let failing: Vec<Result<CheckStatus, String>> = vec![Ok(failure(50))];
    assert_eq!(
        run_cargo_msrv(&config(&["cargo", "test", "--workspace"]), &catalog, failing),
        Err(CargoMSRVError::UnableToFindAnyGoodVersion { command: "cargo test --workspace".to_string() })
    );
}

#[test]
fn scan_probes_one_release_for_each_minor_unless_told_otherwise() {
    let catalog = vec![
        Release::new_stable(Version::new(1, 50, 1)),
        Release::new_stable(Version::new(1, 50, 0)),
        Release::new_stable(Version::new(1, 49, 0)),
    ];
    let answers = || -> Vec<Result<CheckStatus, String>> {
        vec![
            Ok(CheckStatus::Success { toolchain: "first".to_string(), version: Version::new(1, 50, 1) }),
            Ok(CheckStatus::Failure { toolchain: "second".to_string(), diagnostic: String::new() }),
            Ok(CheckStatus::Success { toolchain: "third".to_string(), version: Version::new(1, 49, 0) }),
        ]
    };
    let mut cfg = config(&["cargo", "build"]);
    let two_probes = determine_msrv(&cfg, &catalog, answers());
    assert_eq!(
        two_probes,
        Ok(MinimalCompatibility::CapableToolchain { toolchain: "first".to_string(), version: Version::new(1, 50, 1) })
    );
    cfg.include_all_patch_releases = true;
    let three_probes = determine_msrv(&cfg, &catalog, answers());
    assert_eq!(two_probes, three_probes);
    let passing: Vec<Result<CheckStatus, String>> = vec![Ok(success(50)), Ok(success(49)), Ok(failure(48))];
    cfg.include_all_patch_releases = false;
    assert_eq!(determine_msrv(&cfg, &catalog, passing), Ok(capable(49)));
}
