use repo_scan::status::RepoOutcome;
use repo_scan::status::ScanTotals;
use repo_scan::status::StatusRecord;
use repo_scan::status::count_resolvable;
use repo_scan::status::repo_lines;
use repo_scan::status::summarize;

fn untracked(path: &str) -> StatusRecord {
    StatusRecord {
        path: Some(path.to_string()),
        flags: 1 << 7,
        symbolic: "Status(WT_NEW)".to_string(),
    }
}

fn unresolvable() -> StatusRecord {
    StatusRecord { path: None, flags: 1 << 7, symbolic: "Status(WT_NEW)".to_string() }
}

#[test]
fn no_outcomes_no_totals() {
    let totals = summarize(&vec![]);
    assert_eq!(totals, ScanTotals { repos: 0, changes: 0 });
}

#[test]
fn clean_repository_contributes_zero_changes_and_no_lines() {
    let totals = summarize(&vec![RepoOutcome::Opened(vec![])]);
    assert_eq!(totals, ScanTotals { repos: 1, changes: 0 });
    let lines = repo_lines(&"root/proj-a".to_string(), &vec![]);
    assert!(lines.is_empty());
}

#[test]
fn one_untracked_file_adds_exactly_one_change_and_names_it() {
    let before = summarize(&vec![RepoOutcome::Opened(vec![])]);
    let after = summarize(&vec![RepoOutcome::Opened(vec![untracked("x.txt")])]);
    assert_eq!(after.repos, before.repos);
    assert_eq!(after.changes, before.changes + 1);
    let lines = repo_lines(&"root/proj-b".to_string(), &vec![untracked("x.txt")]);
    assert_eq!(lines, vec!["root/proj-b/x.txt - Status(WT_NEW)".to_string()]);
}

#[test]
fn unopenable_repository_is_left_out_of_the_count() {
    let totals = summarize(&vec![
        RepoOutcome::OpenFailed,
        RepoOutcome::Opened(vec![untracked("x.txt")]),
    ]);
    assert_eq!(totals, ScanTotals { repos: 1, changes: 1 });
}

#[test]
fn records_without_a_resolvable_path_are_not_counted() {
    assert_eq!(count_resolvable(&vec![unresolvable()]), 0);
    assert_eq!(count_resolvable(&vec![untracked("a"), unresolvable(), untracked("b")]), 2);
    let lines = repo_lines(&"r".to_string(), &vec![unresolvable()]);
    assert!(lines.is_empty());
}

#[test]
fn totals_add_up_across_repositories() {
    let totals = summarize(&vec![
        RepoOutcome::Opened(vec![untracked("a"), untracked("b")]),
        RepoOutcome::OpenFailed,
        RepoOutcome::Opened(vec![]),
        RepoOutcome::Opened(vec![untracked("c")]),
    ]);
    assert_eq!(totals, ScanTotals { repos: 3, changes: 3 });
}

#[test]
fn report_lines_keep_record_order() {
    let lines = repo_lines(
        &"r".to_string(),
        &vec![untracked("a.txt"), unresolvable(), untracked("b.txt")],
    );
    assert_eq!(
        lines,
        vec![
            "r/a.txt - Status(WT_NEW)".to_string(),
            "r/b.txt - Status(WT_NEW)".to_string(),
        ]
    );
}

#[test]
fn summarize_is_deterministic_for_unchanged_outcomes() {
    let outcomes = vec![
        RepoOutcome::Opened(vec![untracked("a")]),
        RepoOutcome::OpenFailed,
        RepoOutcome::Opened(vec![]),
    ];
    assert_eq!(summarize(&outcomes), summarize(&outcomes));
}

#[test]
fn no_roots_yields_a_successful_empty_outcome_list() {
    let r = repo_scan::git::collect_outcomes(&vec![]);
    assert!(matches!(r, Ok(ref outcomes) if outcomes.is_empty()));
}
