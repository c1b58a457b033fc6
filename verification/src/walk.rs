//! Repository discovery over the real filesystem: a `walkdir` walk, pruned
//! by the policy of [`crate::policy`].
//!
//! What the walk yields depends on what is on disk, so nothing is promised
//! of the wrappers' results; the decision taken for each yielded entry is
//! the verified [`crate::policy::classify`].

use vstd::prelude::*;

use crate::diag::emit_line;
use crate::policy::Action;
use crate::policy::classify;
use crate::policy::is_hidden;

verus! {

#[verifier::external_type_specification]
#[verifier::external_body]
pub struct ExWalkDir(walkdir::WalkDir);

#[verifier::external_type_specification]
#[verifier::external_body]
pub struct ExWalkDirIntoIter(walkdir::IntoIter);

#[verifier::external_type_specification]
#[verifier::external_body]
pub struct ExWalkDirEntry(walkdir::DirEntry);

#[verifier::external_type_specification]
#[verifier::external_body]
pub struct ExWalkDirError(walkdir::Error);

/// Relies on walkdir::WalkDir::new: builds a recursive walk rooted at the
/// given path.
#[verifier::external_body]
fn walk_dir_new(root: &String) -> walkdir::WalkDir {
    walkdir::WalkDir::new(root.as_str())
}

/// Relies on walkdir's IntoIterator for WalkDir: turns the walk into its
/// entry iterator.
#[verifier::external_body]
fn walk_into_iter(walk: walkdir::WalkDir) -> walkdir::IntoIter {
    walk.into_iter()
}

/// Relies on walkdir's Iterator for IntoIter: yields the walk's next entry,
/// or the rendering of the error that reading an entry raised, or nothing
/// once the walk is done.
#[verifier::external_body]
fn walk_next(it: &mut walkdir::IntoIter) -> Option<Result<walkdir::DirEntry, String>> {
    it.next().map(|r| r.map_err(|e| format!("{:?}", e)))
}

/// Relies on walkdir::IntoIter::skip_current_dir: the walk does not descend
/// beneath the most recently yielded entry.
#[verifier::external_body]
fn walk_skip_current_dir(it: &mut walkdir::IntoIter) {
    it.skip_current_dir();
}

/// Relies on walkdir::DirEntry::file_name and std's OsStr::to_str: the
/// entry's file name, when it can be read as text.
#[verifier::external_body]
fn entry_file_name(entry: &walkdir::DirEntry) -> Option<String> {
    entry.file_name().to_str().map(|s| s.to_string())
}

/// Relies on walkdir::DirEntry::file_type and std's FileType::is_dir:
/// whether the entry's own file type is a directory.
#[verifier::external_body]
fn entry_is_dir(entry: &walkdir::DirEntry) -> bool {
    entry.file_type().is_dir()
}

/// Relies on walkdir::DirEntry::path and std's Path::display: the entry's
/// full path as text.
#[verifier::external_body]
fn entry_path_string(entry: &walkdir::DirEntry) -> String {
    entry.path().display().to_string()
}

/// Relies on walkdir::DirEntry::path and std's Path::is_dir, Path::join,
/// Path::exists and Path::is_file: whether the entry is a directory that
/// directly holds a file `.git/config`.
#[verifier::external_body]
fn entry_is_git_repo(entry: &walkdir::DirEntry) -> bool {
    entry.path().is_dir() && {
        let p = entry.path().join(".git").join("config");
        p.exists() && p.is_file()
    }
}

/// Walks the filesystem from `root` and collects, in visiting order, the
/// paths of the repository roots that the pruning policy records. An entry
/// whose reading fails is reported to the error stream and skipped;
/// discovery itself never fails, it returns whatever it could collect.
pub fn discover_roots(root: &String) -> Vec<String> {
    let mut roots: Vec<String> = Vec::new();
    let mut it = walk_into_iter(walk_dir_new(root));
    // Each yielded entry stands for a distinct path that was read from disk,
    // so a walk cannot yield anywhere near `usize::MAX` entries; the counter
    // only gives the loop its measure.
    let mut steps: usize = 0;
    while steps < usize::MAX
        decreases usize::MAX - steps,
    {
        steps += 1;
        match walk_next(&mut it) {
            None => {
                break;
            },
            Some(Err(msg)) => {
                emit_line(&msg);
            },
            Some(Ok(entry)) => {
                let name = entry_file_name(&entry);
                let is_repo = if is_hidden(&name) {
                    false
                } else {
                    entry_is_git_repo(&entry)
                };
                match classify(&name, entry_is_dir(&entry), is_repo) {
                    Action::Ignore => {},
                    Action::Prune => {
                        walk_skip_current_dir(&mut it);
                    },
                    Action::Record => {
                        roots.push(entry_path_string(&entry));
                        walk_skip_current_dir(&mut it);
                    },
                    Action::Descend => {},
                }
            },
        }
    }
    roots
}

} // verus!
