use repo_scan::policy::Action;
use repo_scan::policy::classify;
use repo_scan::policy::is_hidden;
use repo_scan::tree::DirTree;
use repo_scan::tree::discover;

fn entry(name: &str, is_dir: bool, has_git_config: bool, children: Vec<DirTree>) -> DirTree {
    DirTree { name: name.to_string(), is_dir, has_git_config, children }
}

fn dir(name: &str, children: Vec<DirTree>) -> DirTree {
    entry(name, true, false, children)
}

fn repo(name: &str, children: Vec<DirTree>) -> DirTree {
    entry(name, true, true, children)
}

fn file(name: &str) -> DirTree {
    entry(name, false, false, vec![])
}

fn path(segments: &[&str]) -> Vec<String> {
    segments.iter().map(|s| s.to_string()).collect()
}

#[test]
fn hidden_names_start_with_a_dot() {
    assert!(is_hidden(&Some(".cache".to_string())));
    assert!(is_hidden(&Some(".".to_string())));
    assert!(!is_hidden(&Some("proj".to_string())));
    assert!(!is_hidden(&Some("".to_string())));
    assert!(!is_hidden(&None));
}

#[test]
fn classify_follows_the_pruning_policy() {
    assert_eq!(classify(&Some(".x".to_string()), true, false), Action::Prune);
    assert_eq!(classify(&Some(".x".to_string()), false, false), Action::Ignore);
    assert_eq!(classify(&Some("p".to_string()), true, true), Action::Record);
    assert_eq!(classify(&Some("p".to_string()), true, false), Action::Descend);
    assert_eq!(classify(&Some("p".to_string()), false, false), Action::Descend);
    assert_eq!(classify(&None, true, true), Action::Record);
}

#[test]
fn classify_tests_hidden_before_repository() {
    assert_eq!(classify(&Some(".git".to_string()), true, true), Action::Prune);
}

#[test]
fn tree_without_config_yields_no_roots() {
    let t = dir(
        "root",
        vec![dir("a", vec![file("x.txt"), dir("b", vec![file("y.txt")])]), file("z.txt")],
    );
    let roots = discover(&t, &vec![]);
    assert!(roots.is_empty());
}

#[test]
fn repository_root_is_recorded_once_and_not_descended() {
    let t = dir(
        "root",
        vec![repo("d", vec![dir("sub", vec![repo("nested", vec![])]), file("x.txt")])],
    );
    let roots = discover(&t, &vec![]);
    assert_eq!(roots, vec![path(&["root", "d"])]);
}

#[test]
fn hidden_directory_is_never_reported_even_with_config() {
    let t = dir("root", vec![entry(".cache", true, true, vec![repo("inner", vec![])])]);
    let roots = discover(&t, &vec![]);
    assert!(roots.is_empty());
}

#[test]
fn hidden_scan_root_yields_nothing() {
    let t = entry(".root", true, true, vec![repo("inner", vec![])]);
    let roots = discover(&t, &vec![]);
    assert!(roots.is_empty());
}

#[test]
fn scan_root_that_is_a_repository_is_the_only_root() {
    let t = repo("root", vec![repo("inner", vec![])]);
    let roots = discover(&t, &vec![]);
    assert_eq!(roots, vec![path(&["root"])]);
}

#[test]
fn two_projects_and_a_hidden_repository() {
    let t = dir(
        "root",
        vec![
            repo("proj-a", vec![]),
            repo("proj-b", vec![file("x.txt")]),
            entry(".cache", true, true, vec![]),
        ],
    );
    let roots = discover(&t, &vec![]);
    assert_eq!(roots, vec![path(&["root", "proj-a"]), path(&["root", "proj-b"])]);
}

#[test]
fn discovery_is_deterministic_for_an_unchanged_tree() {
    let t = dir(
        "root",
        vec![repo("proj-a", vec![]), dir("plain", vec![repo("deep", vec![])]), file("x")],
    );
    let first = discover(&t, &vec![]);
    let second = discover(&t, &vec![]);
    assert_eq!(first, second);
}

#[test]
fn roots_are_reported_in_visiting_order() {
    let t = dir(
        "root",
        vec![dir("a", vec![repo("r1", vec![])]), repo("r2", vec![]), dir("c", vec![repo("r3", vec![])])],
    );
    let roots = discover(&t, &vec![]);
    assert_eq!(
        roots,
        vec![path(&["root", "a", "r1"]), path(&["root", "r2"]), path(&["root", "c", "r3"])]
    );
}

#[test]
fn same_named_repositories_under_different_parents_stay_distinct() {
    let t = dir(
        "root",
        vec![dir("a", vec![repo("r", vec![])]), dir("b", vec![repo("r", vec![])])],
    );
    let roots = discover(&t, &vec![]);
    assert_eq!(roots, vec![path(&["root", "a", "r"]), path(&["root", "b", "r"])]);
    for (i, p) in roots.iter().enumerate() {
        for (j, q) in roots.iter().enumerate() {
            if i != j {
                assert_ne!(p, q);
                assert!(!q.starts_with(p));
            }
        }
    }
}
