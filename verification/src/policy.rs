//! The traversal policy: how the walk treats one visited entry.
//!
//! An entry whose name starts with a dot is hidden; a hidden directory is
//! pruned together with everything beneath it. A directory holding a
//! `.git/config` file is a repository root: it is recorded and likewise
//! pruned. Every other entry is descended into as usual.

use vstd::prelude::*;

verus! {

/// How the directory walk treats one visited entry.
#[derive(Clone, Copy, Debug, PartialEq, Eq, Structural)]
pub enum Action {
    /// A hidden non-directory: ignored, the walk goes on with its siblings.
    Ignore,
    /// A hidden directory: ignored, and nothing beneath it is visited.
    Prune,
    /// A repository root: recorded, and nothing beneath it is visited.
    Record,
    /// An ordinary entry: the walk descends into it as usual.
    Descend,
}

/// A file name is hidden when its first character is a dot.
pub open spec fn spec_hidden_name(name: Seq<char>) -> bool {
    name.len() > 0 && name[0] == '.'
}

/// An entry is hidden when its name could be read as text and that text
/// starts with a dot; a name that is not valid text never counts as hidden.
pub open spec fn spec_hidden(name: Option<Seq<char>>) -> bool {
    match name {
        Some(s) => spec_hidden_name(s),
        None => false,
    }
}

/// The pruning policy, applied to one entry: the hidden test comes first,
/// so a hidden directory is never tested for being a repository root.
pub open spec fn spec_classify(name: Option<Seq<char>>, is_dir: bool, is_repo: bool) -> Action {
    if spec_hidden(name) {
        if is_dir {
            Action::Prune
        } else {
            Action::Ignore
        }
    } else if is_repo {
        Action::Record
    } else {
        Action::Descend
    }
}

/// Whether an entry with the given file name (`None` when the name is not
/// valid text) is hidden.
pub fn is_hidden(name: &Option<String>) -> (b: bool)
    ensures
        b == spec_hidden(name.deep_view()),
{
    match name {
        Some(s) => {
            if s.as_str().unicode_len() == 0 {
                false
            } else {
                s.as_str().get_char(0) == '.'
            }
        },
        None => false,
    }
}

/// Decides what the walk does with one entry, from its file name, whether
/// its file type is a directory, and whether it was probed to be a
/// repository root.
pub fn classify(name: &Option<String>, is_dir: bool, is_repo: bool) -> (a: Action)
    ensures
        a == spec_classify(name.deep_view(), is_dir, is_repo),
{
    if is_hidden(name) {
        if is_dir {
            Action::Prune
        } else {
            Action::Ignore
        }
    } else if is_repo {
        Action::Record
    } else {
        Action::Descend
    }
}

} // verus!
