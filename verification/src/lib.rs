//! Scans a directory tree for git repositories and reports, per repository,
//! every path whose working-tree status differs from a clean committed state,
//! together with an aggregate count of repositories and changed paths.
//!
//! The traversal policy (which entries are hidden, which are repository
//! roots, where the walk is pruned) and the status aggregation (how per-path
//! records become totals and report lines) are verified; the filesystem walk
//! and the git status queries themselves are reached through small trusted
//! wrappers around `walkdir` and `git2`.

mod diag;
pub mod git;
pub mod policy;
pub mod scan;
pub mod status;
pub mod summary;
pub mod tree;
pub mod walk;
