//! A model of a directory tree, and the repository discoverer over it.
//!
//! The discoverer visits the tree with the pruning policy of
//! [`crate::policy`]: hidden entries are skipped (a hidden directory together
//! with everything beneath it), a directory holding `.git/config` is recorded
//! as a repository root and not descended into, and every other directory is
//! walked recursively. A discovered root is reported as its path from the
//! scan root, as a sequence of name segments.

use vstd::prelude::*;

use crate::policy::Action;
use crate::policy::classify;
use crate::policy::spec_classify;
use crate::policy::spec_hidden_name;

verus! {

/// One filesystem entry of the model: its file name, whether it is a
/// directory, whether a file `.git/config` lies directly beneath it, and its
/// visible child entries.
pub struct DirTree {
    pub name: String,
    pub is_dir: bool,
    pub has_git_config: bool,
    pub children: Vec<DirTree>,
}

/// Whether the model entry is a repository root: a directory that holds a
/// `.git/config` file.
pub open spec fn spec_is_repo(t: DirTree) -> bool {
    t.is_dir && t.has_git_config
}

/// The repository roots that the pruning walk finds in the subtree `t`, in
/// visiting order, each as its path of name segments; `prefix` is the path
/// of the entry `t` hangs under.
pub open spec fn spec_discover(t: DirTree, prefix: Seq<Seq<char>>) -> Seq<Seq<Seq<char>>>
    decreases t,
{
    let path = prefix.push(t.name@);
    match spec_classify(Some(t.name@), t.is_dir, spec_is_repo(t)) {
        Action::Ignore => Seq::empty(),
        Action::Prune => Seq::empty(),
        Action::Record => seq![path],
        Action::Descend => spec_discover_children(t.children@, path),
    }
}

/// The roots found under a sequence of sibling entries, in order.
pub open spec fn spec_discover_children(
    ts: Seq<DirTree>,
    prefix: Seq<Seq<char>>,
) -> Seq<Seq<Seq<char>>>
    decreases ts,
{
    if ts.len() == 0 {
        Seq::empty()
    } else {
        spec_discover(ts[0], prefix) + spec_discover_children(ts.drop_first(), prefix)
    }
}

proof fn lemma_discover_children_snoc(ts: Seq<DirTree>, x: DirTree, prefix: Seq<Seq<char>>)
    ensures
        spec_discover_children(ts.push(x), prefix) == spec_discover_children(ts, prefix)
            + spec_discover(x, prefix),
    decreases ts.len(),
{
    if ts.len() == 0 {
        reveal_with_fuel(spec_discover_children, 2);
        assert(ts.push(x)[0] == x);
        assert(ts.push(x).drop_first() =~= Seq::<DirTree>::empty());
        assert(spec_discover_children(ts.push(x), prefix) =~= spec_discover_children(ts, prefix)
            + spec_discover(x, prefix));
    } else {
        assert(ts.push(x)[0] == ts[0]);
        assert(ts.push(x).drop_first() =~= ts.drop_first().push(x));
        lemma_discover_children_snoc(ts.drop_first(), x, prefix);
        assert(spec_discover_children(ts.push(x), prefix) =~= spec_discover_children(ts, prefix)
            + spec_discover(x, prefix));
    }
}

/// Discovers the repository roots in the model tree `t`, returning their
/// paths in visiting order; `prefix` is the path of the entry `t` hangs
/// under (empty when `t` is the scan root).
pub fn discover(t: &DirTree, prefix: &Vec<String>) -> (roots: Vec<Vec<String>>)
    ensures
        roots.deep_view() == spec_discover(*t, prefix.deep_view()),
    decreases *t,
{
    let mut path = prefix.clone();
    path.push(t.name.clone());
    proof {
        assert(path.deep_view() =~= prefix.deep_view().push(t.name@));
    }
    let name = Some(t.name.clone());
    let action = classify(&name, t.is_dir, t.is_dir && t.has_git_config);
    match action {
        Action::Ignore => Vec::new(),
        Action::Prune => Vec::new(),
        Action::Record => {
            let mut roots: Vec<Vec<String>> = Vec::new();
            roots.push(path);
            proof {
                assert(roots.deep_view() =~= spec_discover(*t, prefix.deep_view()));
            }
            roots
        },
        Action::Descend => {
            let mut roots: Vec<Vec<String>> = Vec::new();
            let n = t.children.len();
            let mut i: usize = 0;
            while i < n
                invariant
                    i <= n,
                    n == t.children@.len(),
                    path.deep_view() == prefix.deep_view().push(t.name@),
                    spec_classify(Some(t.name@), t.is_dir, spec_is_repo(*t)) == Action::Descend,
                    roots.deep_view() == spec_discover_children(
                        t.children@.take(i as int),
                        path.deep_view(),
                    ),
                decreases n - i,
            {
                let mut sub = discover(&t.children[i], &path);
                proof {
                    lemma_discover_children_snoc(
                        t.children@.take(i as int),
                        t.children@[i as int],
                        path.deep_view(),
                    );
                    assert(t.children@.take(i + 1) =~= t.children@.take(i as int).push(
                        t.children@[i as int],
                    ));
                }
                let ghost old_roots = roots.deep_view();
                let ghost sub_view = sub.deep_view();
                roots.append(&mut sub);
                proof {
                    assert(roots.deep_view() =~= old_roots + sub_view);
                }
                i += 1;
            }
            proof {
                assert(t.children@.take(n as int) =~= t.children@);
            }
            roots
        },
    }
}

/// The tree is shaped like a real directory tree: sibling entries carry
/// distinct names, at every level.
pub open spec fn spec_wf(t: DirTree) -> bool
    decreases t,
{
    &&& (forall|i: int, j: int|
        #![trigger t.children@[i].name@, t.children@[j].name@]
        0 <= i < j < t.children@.len() ==> t.children@[i].name@ != t.children@[j].name@)
    &&& (forall|i: int| 0 <= i < t.children@.len() ==> spec_wf(#[trigger] t.children@[i]))
}

proof fn lemma_prefix_push_weaken(q: Seq<Seq<char>>, x: Seq<char>, p: Seq<Seq<char>>)
    requires
        q.push(x).is_prefix_of(p),
    ensures
        q.len() < p.len(),
        q.is_prefix_of(p),
        p[q.len() as int] == x,
{
    assert(q.push(x) =~= p.subrange(0, q.len() as int + 1));
    assert(p[q.len() as int] == p.subrange(0, q.len() as int + 1)[q.len() as int]);
    assert(q =~= p.subrange(0, q.len() as int));
}

/// The discoverer's result guarantee, over any well-formed tree: the result
/// holds each qualifying root exactly once, every reported path starts with
/// the path of the scanned subtree, and no reported path lies beneath
/// another reported path.
pub proof fn lemma_roots_unique_and_unnested(t: DirTree, prefix: Seq<Seq<char>>)
    requires
        spec_wf(t),
    ensures
        spec_discover(t, prefix).no_duplicates(),
        forall|p: Seq<Seq<char>>| #[trigger] spec_discover(t, prefix).contains(p)
            ==> prefix.push(t.name@).is_prefix_of(p),
        forall|p: Seq<Seq<char>>, q: Seq<Seq<char>>|
            #![trigger spec_discover(t, prefix).contains(p), spec_discover(t, prefix).contains(q)]
            spec_discover(t, prefix).contains(p) && spec_discover(t, prefix).contains(q) && p != q
                ==> !p.is_prefix_of(q),
    decreases t,
{
    let path = prefix.push(t.name@);
    let res = spec_discover(t, prefix);
    match spec_classify(Some(t.name@), t.is_dir, spec_is_repo(t)) {
        Action::Ignore => {},
        Action::Prune => {},
        Action::Record => {
            assert(res == seq![path]);
            assert forall|p: Seq<Seq<char>>| #[trigger] res.contains(p) implies path.is_prefix_of(
                p,
            ) by {
                assert(p == path);
                assert(path =~= p.subrange(0, path.len() as int));
            }
        },
        Action::Descend => {
            lemma_children_unique_and_unnested(t.children@, path);
        },
    }
}

proof fn lemma_children_unique_and_unnested(ts: Seq<DirTree>, path: Seq<Seq<char>>)
    requires
        forall|i: int, j: int|
            #![trigger ts[i].name@, ts[j].name@]
            0 <= i < j < ts.len() ==> ts[i].name@ != ts[j].name@,
        forall|i: int| 0 <= i < ts.len() ==> spec_wf(#[trigger] ts[i]),
    ensures
        spec_discover_children(ts, path).no_duplicates(),
        forall|p: Seq<Seq<char>>| #[trigger] spec_discover_children(ts, path).contains(p)
            ==> path.len() < p.len() && path.is_prefix_of(p) && (exists|i: int|
            0 <= i < ts.len() && p[path.len() as int] == #[trigger] ts[i].name@),
        forall|p: Seq<Seq<char>>, q: Seq<Seq<char>>|
            #![trigger spec_discover_children(ts, path).contains(p), spec_discover_children(ts, path).contains(q)]
            spec_discover_children(ts, path).contains(p) && spec_discover_children(
                ts,
                path,
            ).contains(q) && p != q ==> !p.is_prefix_of(q),
    decreases ts,
{
    if ts.len() == 0 {
    } else {
        let head = spec_discover(ts[0], path);
        let rest = spec_discover_children(ts.drop_first(), path);
        let res = spec_discover_children(ts, path);
        assert(res == head + rest);
        assert(spec_wf(ts[0]));
        lemma_roots_unique_and_unnested(ts[0], path);
        assert forall|i: int, j: int|
            #![trigger ts.drop_first()[i].name@, ts.drop_first()[j].name@]
            0 <= i < j < ts.drop_first().len() implies ts.drop_first()[i].name@
            != ts.drop_first()[j].name@ by {
            assert(ts.drop_first()[i] == ts[i + 1]);
            assert(ts.drop_first()[j] == ts[j + 1]);
        }
        assert forall|i: int| 0 <= i < ts.drop_first().len() implies spec_wf(
            #[trigger] ts.drop_first()[i],
        ) by {
            assert(ts.drop_first()[i] == ts[i + 1]);
        }
        lemma_children_unique_and_unnested(ts.drop_first(), path);

        // Every value of the head part carries the first child's name right
        // after `path`; every value of the rest part carries some later
        // sibling's name there, and sibling names are distinct.
        assert forall|p: Seq<Seq<char>>| #[trigger] head.contains(p) implies path.len() < p.len()
            && path.is_prefix_of(p) && p[path.len() as int] == ts[0].name@ by {
            lemma_prefix_push_weaken(path, ts[0].name@, p);
        }
        assert forall|p: Seq<Seq<char>>| #[trigger] rest.contains(p) implies path.len() < p.len()
            && path.is_prefix_of(p) && p[path.len() as int] != ts[0].name@ && (exists|i: int|
            0 <= i < ts.len() && p[path.len() as int] == #[trigger] ts[i].name@) by {
            let i = choose|i: int|
                0 <= i < ts.drop_first().len() && p[path.len() as int] == #[trigger] ts.drop_first()[i].name@;
            assert(ts.drop_first()[i] == ts[i + 1]);
            assert(p[path.len() as int] == ts[i + 1].name@);
            assert(ts[0].name@ != ts[i + 1].name@);
        }

        assert forall|p: Seq<Seq<char>>| #[trigger] res.contains(p) implies path.len() < p.len()
            && path.is_prefix_of(p) && (exists|i: int|
            0 <= i < ts.len() && p[path.len() as int] == #[trigger] ts[i].name@) by {
            let k = choose|k: int| 0 <= k < res.len() && res[k] == p;
            if k < head.len() {
                assert(head[k] == p);
                assert(head.contains(p));
                assert(p[path.len() as int] == ts[0].name@);
            } else {
                assert(rest[k - head.len()] == p);
                assert(rest.contains(p));
            }
        }

        assert forall|a: int, b: int|
            0 <= a < res.len() && 0 <= b < res.len() && a != b implies res[a] != res[b] by {
            if a < head.len() && b < head.len() {
            } else if a >= head.len() && b >= head.len() {
                assert(res[a] == rest[a - head.len()]);
                assert(res[b] == rest[b - head.len()]);
            } else {
                let ha = if a < head.len() { a } else { b };
                let rb = if a < head.len() { b } else { a };
                assert(res[ha] == head[ha]);
                assert(head.contains(head[ha]));
                assert(res[rb] == rest[rb - head.len()]);
                assert(rest.contains(rest[rb - head.len()]));
                assert(head[ha][path.len() as int] == ts[0].name@);
                assert(rest[rb - head.len()][path.len() as int] != ts[0].name@);
            }
        }

        assert forall|p: Seq<Seq<char>>, q: Seq<Seq<char>>|
            #![trigger res.contains(p), res.contains(q)]
            res.contains(p) && res.contains(q) && p != q implies !p.is_prefix_of(q) by {
            let kp = choose|k: int| 0 <= k < res.len() && res[k] == p;
            let kq = choose|k: int| 0 <= k < res.len() && res[k] == q;
            let p_in_head = kp < head.len();
            let q_in_head = kq < head.len();
            if p_in_head {
                assert(head[kp] == p);
                assert(head.contains(p));
            } else {
                assert(rest[kp - head.len()] == p);
                assert(rest.contains(p));
            }
            if q_in_head {
                assert(head[kq] == q);
                assert(head.contains(q));
            } else {
                assert(rest[kq - head.len()] == q);
                assert(rest.contains(q));
            }
            if p_in_head && q_in_head {
            } else if !p_in_head && !q_in_head {
            } else {
                if p.is_prefix_of(q) {
                    assert(p =~= q.subrange(0, p.len() as int));
                    assert(q[path.len() as int] == q.subrange(0, p.len() as int)[path.len() as int]);
                    assert(p[path.len() as int] == q[path.len() as int]);
                    assert(false);
                }
            }
        }
    }
}

/// A `.git/config` file lies somewhere in the subtree `t`: directly beneath
/// `t` itself, or beneath some descendant.
pub open spec fn spec_has_config(t: DirTree) -> bool
    decreases t,
{
    t.has_git_config || exists|i: int|
        0 <= i < t.children@.len() && spec_has_config(#[trigger] t.children@[i])
}

/// A tree that holds no `.git/config` file anywhere yields no repository
/// roots at all.
pub proof fn lemma_no_config_no_roots(t: DirTree, prefix: Seq<Seq<char>>)
    requires
        !spec_has_config(t),
    ensures
        spec_discover(t, prefix) == Seq::<Seq<Seq<char>>>::empty(),
    decreases t,
{
    let path = prefix.push(t.name@);
    if spec_classify(Some(t.name@), t.is_dir, spec_is_repo(t)) == Action::Descend {
        lemma_no_config_no_roots_children(t.children@, path);
    }
}

proof fn lemma_no_config_no_roots_children(ts: Seq<DirTree>, prefix: Seq<Seq<char>>)
    requires
        forall|i: int| 0 <= i < ts.len() ==> !spec_has_config(#[trigger] ts[i]),
    ensures
        spec_discover_children(ts, prefix) == Seq::<Seq<Seq<char>>>::empty(),
    decreases ts,
{
    if ts.len() > 0 {
        lemma_no_config_no_roots(ts[0], prefix);
        lemma_no_config_no_roots_children(ts.drop_first(), prefix);
        assert(spec_discover_children(ts, prefix) =~= Seq::<Seq<Seq<char>>>::empty());
    }
}

/// A non-hidden directory that holds `.git/config` is reported exactly once,
/// and nothing beneath it is reported — even a descendant that itself holds
/// a `.git/config` file.
pub proof fn lemma_repo_root_pruned(t: DirTree, prefix: Seq<Seq<char>>)
    requires
        !spec_hidden_name(t.name@),
        t.is_dir,
        t.has_git_config,
    ensures
        spec_discover(t, prefix) == seq![prefix.push(t.name@)],
        forall|p: Seq<Seq<char>>|
            spec_discover(t, prefix).contains(p) ==> p == prefix.push(t.name@),
{
    assert(spec_discover(t, prefix) =~= seq![prefix.push(t.name@)]);
}

/// A hidden entry yields no repository roots at all: neither it nor anything
/// beneath it is reported, even when it holds a `.git/config` file.
pub proof fn lemma_hidden_pruned(t: DirTree, prefix: Seq<Seq<char>>)
    requires
        spec_hidden_name(t.name@),
    ensures
        spec_discover(t, prefix) == Seq::<Seq<Seq<char>>>::empty(),
{
}

} // verus!
