//! Whole scans against the recorded answers of a checker, and the final
//! decision that turns a verdict into success or an error.

use crate::release::{candidate_releases, candidates, Config, Release};
use crate::scan::{verdict_of, CheckStatus, MinimalCompatibility, ScanStep, Scanner};
use vstd::prelude::*;

verus! {

/// Why a run did not find a minimum supported version.
#[derive(Debug, PartialEq, Eq)]
pub enum CargoMSRVError<E> {
    /// The scan finished and no probed release passed the check command.
    UnableToFindAnyGoodVersion { command: String },
    /// The checker could not install or launch a toolchain; its error is
    /// carried as it came.
    Check(E),
}

/// An outcome that lets the scan go on to the next older release.
pub open spec fn is_success<E>(outcome: Result<CheckStatus, E>) -> bool {
    outcome matches Ok(status) && status is Success
}

/// Every outcome before index `k` is a success.
pub open spec fn all_succeed_before<E>(outcomes: Seq<Result<CheckStatus, E>>, k: int) -> bool {
    forall|i: int| 0 <= i < k ==> is_success(#[trigger] outcomes[i])
}

/// The index of the first outcome that is not a success, or the length of
/// `outcomes` if all of them are.
pub open spec fn stop_index<E>(outcomes: Seq<Result<CheckStatus, E>>) -> int
    decreases outcomes.len(),
{
    if outcomes.len() == 0 {
        0
    } else if is_success(outcomes[0]) {
        1 + stop_index(outcomes.skip(1))
    } else {
        0
    }
}

/// How many releases a scan probes when the checker answers with `outcomes`:
/// every release up to and including the first that does not succeed.
pub open spec fn probes_made<E>(outcomes: Seq<Result<CheckStatus, E>>) -> int {
    let k = stop_index(outcomes);
    if k < outcomes.len() {
        k + 1
    } else {
        k
    }
}

/// The verdict after a scan that started with `initial`: the last success
/// before the first outcome that is not one, or `initial` if there is none.
pub open spec fn scan_verdict<E>(
    initial: MinimalCompatibility,
    outcomes: Seq<Result<CheckStatus, E>>,
) -> MinimalCompatibility {
    let k = stop_index(outcomes);
    if k == 0 {
        initial
    } else {
        verdict_of(outcomes[k - 1]->Ok_0)
    }
}

/// The checker's own error that aborts the scan, if the first outcome that is
/// not a success is one.
pub open spec fn scan_error<E>(outcomes: Seq<Result<CheckStatus, E>>) -> Option<E> {
    let k = stop_index(outcomes);
    if k < outcomes.len() && outcomes[k] is Err {
        Some(outcomes[k]->Err_0)
    } else {
        None
    }
}

/// The answers of `script` that a scan with `probes` releases left takes: one
/// for each release, as far as the script goes.
pub open spec fn answered<E>(probes: nat, script: Seq<Result<CheckStatus, E>>) -> Seq<
    Result<CheckStatus, E>,
> {
    if probes <= script.len() {
        script.take(probes as int)
    } else {
        script
    }
}

/// The answers of `script` that a scanner in the state `scanner` takes.
pub open spec fn taken_by<E>(scanner: Scanner, script: Seq<Result<CheckStatus, E>>) -> Seq<
    Result<CheckStatus, E>,
> {
    answered(scanner.remaining(), script)
}

/// The scan ends because the check command failed on a release: the first
/// outcome that is not a success is a failure, not an error of the checker.
pub open spec fn stops_on_failure<E>(outcomes: Seq<Result<CheckStatus, E>>) -> bool {
    stop_index(outcomes) < outcomes.len() && outcomes[stop_index(outcomes)] is Ok
}

/// The words of a command, each as its text.
pub open spec fn texts(words: Seq<String>) -> Seq<Seq<char>> {
    words.map_values(|w: String| w@)
}

/// The parts in order, with the separator between each two neighbours.
pub open spec fn joined(parts: Seq<Seq<char>>, separator: Seq<char>) -> Seq<char>
    decreases parts.len(),
{
    if parts.len() == 0 {
        Seq::empty()
    } else if parts.len() == 1 {
        parts[0]
    } else {
        joined(parts.drop_last(), separator) + separator + parts.last()
    }
}

/// The check command of `config` as one line, its words parted by one space.
pub open spec fn command_line(config: Config) -> Seq<char> {
    joined(texts(config.check_command@), seq![' '])
}

/// The result of a whole scan under `config` against the answers of `script`.
pub open spec fn msrv<E>(
    config: Config,
    catalog: Seq<Release>,
    script: Seq<Result<CheckStatus, E>>,
) -> Result<MinimalCompatibility, E> {
    let taken = answered(candidates(config, catalog).len(), script);
    match scan_error(taken) {
        Some(e) => Err(e),
        None => Ok(scan_verdict(MinimalCompatibility::NoCompatibleToolchains, taken)),
    }
}

/// The stop index is the one place where the run of successes ends.
pub proof fn law_stop_index<E>(outcomes: Seq<Result<CheckStatus, E>>, k: int)
    requires
        0 <= k <= outcomes.len(),
        all_succeed_before(outcomes, k),
        k == outcomes.len() || !is_success(outcomes[k]),
    ensures
        stop_index(outcomes) == k,
    decreases k,
{
    if k > 0 {
        assert(is_success(outcomes[0]));
        let rest = outcomes.skip(1);
        assert forall|i: int| 0 <= i < k - 1 implies is_success(#[trigger] rest[i]) by {
            assert(rest[i] == outcomes[i + 1]);
        }
        law_stop_index(rest, k - 1);
    }
}

/// Every outcome before the stop index is a success, and the outcome at the
/// stop index, if there is one, is not.
pub proof fn law_stop_index_splits<E>(outcomes: Seq<Result<CheckStatus, E>>)
    ensures
        0 <= stop_index(outcomes) <= outcomes.len(),
        all_succeed_before(outcomes, stop_index(outcomes)),
        stop_index(outcomes) < outcomes.len() ==> !is_success(outcomes[stop_index(outcomes)]),
    decreases outcomes.len(),
{
    if outcomes.len() > 0 && is_success(outcomes[0]) {
        let rest = outcomes.skip(1);
        law_stop_index_splits(rest);
        let k = stop_index(outcomes);
        assert forall|i: int| 0 <= i < k implies is_success(#[trigger] outcomes[i]) by {
            if i > 0 {
                assert(outcomes[i] == rest[i - 1]);
            }
        }
        if k < outcomes.len() {
            assert(outcomes[k] == rest[k - 1]);
        }
    }
}

/// Nothing after the first outcome that is not a success bears on the scan:
/// two answer sequences that agree up to and including that outcome give the
/// same verdict, the same error and the same number of probes.
pub proof fn law_scan_short_circuits<E>(
    initial: MinimalCompatibility,
    a: Seq<Result<CheckStatus, E>>,
    b: Seq<Result<CheckStatus, E>>,
)
    requires
        probes_made(a) <= b.len(),
        forall|i: int| 0 <= i < probes_made(a) ==> a[i] == b[i],
        stop_index(a) < a.len(),
    ensures
        stop_index(b) == stop_index(a),
        scan_verdict(initial, b) == scan_verdict(initial, a),
        scan_error(b) == scan_error(a),
        probes_made(b) == probes_made(a),
{
    law_stop_index_splits(a);
    let k = stop_index(a);
    assert forall|i: int| 0 <= i < k implies is_success(#[trigger] b[i]) by {
        assert(is_success(a[i]));
    }
    law_stop_index(b, k);
}

/// Where the answers are monotonic (whenever an answer is a success, the
/// answer for every newer release is one too), the scan finds the boundary:
/// the answers before the stop index are exactly the successes. The verdict,
/// which names the last of them, then names the oldest release that passes.
pub proof fn law_monotonic_scan_finds_boundary<E>(outcomes: Seq<Result<CheckStatus, E>>)
    requires
        forall|i: int, j: int|
            0 <= i < j < outcomes.len() && is_success(outcomes[j]) ==> is_success(outcomes[i]),
    ensures
        forall|i: int|
            0 <= i < outcomes.len() ==> (is_success(#[trigger] outcomes[i]) <==> i < stop_index(
                outcomes,
            )),
{
    law_stop_index_splits(outcomes);
    let k = stop_index(outcomes);
    assert forall|i: int| 0 <= i < outcomes.len() implies (is_success(#[trigger] outcomes[i]) <==> i
        < k) by {
        if i >= k && is_success(outcomes[i]) {
            if i > k {
                assert(is_success(outcomes[k]));
            }
        }
    }
}

/// The verdict only moves forward: after a scan it is the initial verdict,
/// or it names the toolchain of an answered success.
pub proof fn law_verdict_moves_on_success<E>(
    initial: MinimalCompatibility,
    outcomes: Seq<Result<CheckStatus, E>>,
)
    ensures
        stop_index(outcomes) == 0 ==> scan_verdict(initial, outcomes) == initial,
        stop_index(outcomes) > 0 ==> scan_verdict(initial, outcomes) is CapableToolchain,
{
    law_stop_index_splits(outcomes);
    let k = stop_index(outcomes);
    if k > 0 {
        assert(is_success(outcomes[k - 1]));
    }
}

/// Drives `scanner` with the recorded answers of a checker: `script[i]` is
/// what the checker returns for the `i`-th release that the scanner asks for.
/// The scan ends at the first failure, when no release is left, or when the
/// script has no answer left; an error of the checker aborts it and is
/// returned as it came. The scanner keeps what it had recorded until then.
pub fn test_against_releases_linearly<E>(
    scanner: &mut Scanner,
    script: Vec<Result<CheckStatus, E>>,
) -> (r: Result<(), E>)
    ensures
        final(scanner).releases == old(scanner).releases,
        final(scanner).verdict == scan_verdict(old(scanner).verdict, taken_by(*old(scanner), script@)),
        final(scanner).position == old(scanner).position + stop_index(
            taken_by(*old(scanner), script@),
        ),
        final(scanner).halted == (old(scanner).halted || stops_on_failure(
            taken_by(*old(scanner), script@),
        )),
        r == match scan_error(taken_by(*old(scanner), script@)) {
            Some(e) => Err::<(), E>(e),
            None => Ok(()),
        },
{
    let ghost start = *scanner;
    let ghost all = script@;
    let ghost taken = taken_by(start, all);
    let mut rest = script;
    let mut done: usize = 0;
    loop
        invariant
            start == *old(scanner),
            all == script@,
            scanner.releases == start.releases,
            scanner.halted == start.halted,
            scanner.position == start.position + done,
            done <= taken.len(),
            taken == taken_by(start, all),
            rest@ == all.skip(done as int),
            all_succeed_before(taken, done as int),
            scanner.verdict == if done == 0 {
                start.verdict
            } else {
                verdict_of(taken[done - 1]->Ok_0)
            },
        decreases taken.len() - done,
    {
        match scanner.next_step() {
            ScanStep::Finished => {
                proof {
                    law_stop_index(taken, done as int);
                }
                return Ok(());
            },
            ScanStep::Probe(_) => {
                if rest.len() == 0 {
                    proof {
                        law_stop_index(taken, done as int);
                    }
                    return Ok(());
                }
                let outcome = rest.remove(0);
                assert(outcome == taken[done as int]);
                assert(rest@ =~= all.skip(done + 1));
                match outcome {
                    Err(e) => {
                        proof {
                            law_stop_index(taken, done as int);
                        }
                        return Err(e);
                    },
                    Ok(status) => {
                        scanner.record(status);
                        if scanner.halted {
                            proof {
                                law_stop_index(taken, done as int);
                            }
                            return Ok(());
                        }
                        done = done + 1;
                    },
                }
            },
        }
    }
}

/// Joins the words with `[String]::join`.
///
/// Trusted: `join` flattens the slice into one string and places the
/// separator between each two neighbouring items, and nowhere else.
#[verifier::external_body]
fn join_words(words: &Vec<String>, separator: &str) -> (line: String)
    ensures
        line@ == joined(texts(words@), separator@),
{
    words.join(separator)
}

/// Runs a whole scan against the recorded answers of a checker: selects and
/// filters the releases of `catalog` (newest first) as `config` says, starts
/// from "no compatible toolchain", and probes them in order. `script[i]`
/// answers the `i`-th probe.
pub fn determine_msrv<E>(
    config: &Config,
    catalog: &Vec<Release>,
    script: Vec<Result<CheckStatus, E>>,
) -> (r: Result<MinimalCompatibility, E>)
    ensures
        r == msrv(*config, catalog@, script@),
{
    let releases = candidate_releases(config, catalog);
    let mut scanner = Scanner::new(releases);
    match test_against_releases_linearly(&mut scanner, script) {
        Ok(()) => Ok(scanner.finish()),
        Err(e) => Err(e),
    }
}

/// Turns the verdict of a finished scan into the result of the run: a
/// capable toolchain is success, and "no compatible toolchain" is the error
/// that names the check command that was tried.
pub fn conclude<E>(config: &Config, verdict: MinimalCompatibility) -> (r: Result<
    MinimalCompatibility,
    CargoMSRVError<E>,
>)
    ensures
        verdict is CapableToolchain ==> r == Ok::<MinimalCompatibility, CargoMSRVError<E>>(verdict),
        verdict is NoCompatibleToolchains ==> (r matches Err(
            CargoMSRVError::UnableToFindAnyGoodVersion { command },
        ) && command@ == command_line(*config)),
{
    match verdict {
        MinimalCompatibility::NoCompatibleToolchains => {
            let command = join_words(&config.check_command, " ");
            proof {
                reveal_strlit(" ");
                assert(" "@ =~= seq![' ']);
            }
            Err(CargoMSRVError::UnableToFindAnyGoodVersion { command })
        },
        capable => Ok(capable),
    }
}

/// One whole run against the recorded answers of a checker: the scan, then
/// the decision on its verdict. An error of the checker comes back as it
/// came, inside `Check`.
pub fn run_cargo_msrv<E>(
    config: &Config,
    catalog: &Vec<Release>,
    script: Vec<Result<CheckStatus, E>>,
) -> (r: Result<MinimalCompatibility, CargoMSRVError<E>>)
    ensures
        match msrv(*config, catalog@, script@) {
            Err(e) => r == Err::<MinimalCompatibility, CargoMSRVError<E>>(CargoMSRVError::Check(e)),
            Ok(verdict) => {
                &&& verdict is CapableToolchain ==> r == Ok::<
                    MinimalCompatibility,
                    CargoMSRVError<E>,
                >(verdict)
                &&& verdict is NoCompatibleToolchains ==> (r matches Err(
                    CargoMSRVError::UnableToFindAnyGoodVersion { command },
                ) && command@ == command_line(*config))
            },
        },
{
    match determine_msrv(config, catalog, script) {
        Err(e) => Err(CargoMSRVError::Check(e)),
        Ok(verdict) => conclude(config, verdict),
    }
}

} // verus!
