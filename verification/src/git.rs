//! Status aggregation over real repositories: `git2` opens each discovered
//! root and queries its working-tree status.
//!
//! What the queries return depends on what is on disk, so nothing is
//! promised of the wrappers' results; the folding of the returned records
//! into totals and report lines is the verified logic of [`crate::status`].

use vstd::prelude::*;

use crate::diag::emit_line;
use crate::status::RepoOutcome;
use crate::status::StatusRecord;
use crate::status::repo_lines;

verus! {

#[verifier::external_type_specification]
#[verifier::external_body]
pub struct ExGitRepository(git2::Repository);

#[verifier::external_type_specification]
#[verifier::external_body]
pub struct ExGitError(git2::Error);

#[verifier::external_type_specification]
#[verifier::external_body]
pub struct ExGitStatusOptions(git2::StatusOptions);

/// Relies on git2::Repository::open: opens the repository at the given
/// path, or returns the error that libgit2 raised.
#[verifier::external_body]
fn repo_open(path: &String) -> Result<git2::Repository, git2::Error> {
    git2::Repository::open(path.as_str())
}

/// Relies on git2::StatusOptions::new: the default status query options.
#[verifier::external_body]
fn status_options_new() -> git2::StatusOptions {
    git2::StatusOptions::new()
}

/// Relies on git2::StatusOptions::include_untracked: the status query will
/// also report files not yet tracked at all.
#[verifier::external_body]
fn status_options_with_untracked(opts: &mut git2::StatusOptions, yes: bool) {
    opts.include_untracked(yes);
}

/// Relies on git2::Repository::statuses: queries the working-tree status
/// under the given options and hands each entry out as a plain record — its
/// path when the bytes are valid text, its raw status bits, and the symbolic
/// rendering of those bits — or returns the error that libgit2 raised.
#[verifier::external_body]
fn repo_statuses(
    repo: &git2::Repository,
    opts: &mut git2::StatusOptions,
) -> Result<Vec<StatusRecord>, git2::Error> {
    let statuses = repo.statuses(Some(opts))?;
    Ok(statuses.iter().map(|e| StatusRecord {
        path: e.path().ok().map(|s| s.to_string()),
        flags: e.status().bits(),
        symbolic: format!("{:?}", e.status()),
    }).collect())
}

/// Relies on git2::Error's Display rendering: the error's message as text.
#[verifier::external_body]
fn git_error_message(e: &git2::Error) -> String {
    format!("{}", e)
}

/// Asks each discovered repository root for its status, in order. A root
/// that cannot be opened yields `RepoOutcome::OpenFailed` and the scan goes
/// on; an opened repository yields its status records, and one report line
/// per resolvable changed path goes to the error stream as the repository is
/// processed. A failing status query on an opened repository ends the whole
/// aggregation with that error's message.
pub fn collect_outcomes(roots: &Vec<String>) -> (r: Result<Vec<RepoOutcome>, String>)
    ensures
        r matches Ok(outcomes) ==> outcomes@.len() == roots@.len(),
        roots@.len() == 0 ==> (r matches Ok(outcomes) && outcomes@.len() == 0),
{
    let mut outcomes: Vec<RepoOutcome> = Vec::new();
    let mut i: usize = 0;
    while i < roots.len()
        invariant
            i <= roots@.len(),
            outcomes@.len() == i,
        decreases roots@.len() - i,
    {
        match repo_open(&roots[i]) {
            Err(_) => {
                outcomes.push(RepoOutcome::OpenFailed);
            },
            Ok(repo) => {
                let mut opts = status_options_new();
                status_options_with_untracked(&mut opts, true);
                match repo_statuses(&repo, &mut opts) {
                    Err(e) => {
                        return Err(git_error_message(&e));
                    },
                    Ok(records) => {
                        let lines = repo_lines(&roots[i], &records);
                        let mut j: usize = 0;
                        while j < lines.len()
                            decreases lines@.len() - j,
                        {
                            emit_line(&lines[j]);
                            j += 1;
                        }
                        outcomes.push(RepoOutcome::Opened(records));
                    },
                }
            },
        }
        i += 1;
    }
    Ok(outcomes)
}

} // verus!
