//! Status aggregation: folds per-repository status outcomes into the scan's
//! totals, and renders one report line per changed path.
//!
//! The outcomes themselves come from the git status queries, which depend on
//! what is on disk; everything here is a function of the outcome values
//! alone, so it holds whatever those queries returned.

use vstd::prelude::*;

verus! {

/// One changed path of a repository, as the status query reports it: the
/// repository-relative path when its bytes could be read as text, the raw
/// status bits, and the symbolic rendering of those bits.
pub struct StatusRecord {
    pub path: Option<String>,
    pub flags: u32,
    pub symbolic: String,
}

/// What became of one discovered repository root: it could not be opened as
/// a repository, or it was opened and its status query yielded these
/// records.
pub enum RepoOutcome {
    OpenFailed,
    Opened(Vec<StatusRecord>),
}

/// The scan's aggregate result: how many repositories were opened, and how
/// many changed paths they reported between them.
#[derive(Clone, Copy, Debug, PartialEq, Eq, Structural)]
pub struct ScanTotals {
    pub repos: usize,
    pub changes: u64,
}

/// How many records carry a resolvable (textual) path.
pub open spec fn spec_resolvable_count(rs: Seq<StatusRecord>) -> nat
    decreases rs,
{
    if rs.len() == 0 {
        0
    } else {
        (if rs[0].path is Some {
            1nat
        } else {
            0nat
        }) + spec_resolvable_count(rs.drop_first())
    }
}

/// How many outcomes stand for a repository that was opened; a root whose
/// open failed is left out of the repository count.
pub open spec fn spec_repos(os: Seq<RepoOutcome>) -> nat
    decreases os,
{
    if os.len() == 0 {
        0
    } else {
        (match os[0] {
            RepoOutcome::Opened(_) => 1nat,
            RepoOutcome::OpenFailed => 0nat,
        }) + spec_repos(os.drop_first())
    }
}

/// The total count of resolvable changed paths across all opened
/// repositories.
pub open spec fn spec_changes(os: Seq<RepoOutcome>) -> nat
    decreases os,
{
    if os.len() == 0 {
        0
    } else {
        (match os[0] {
            RepoOutcome::Opened(rs) => spec_resolvable_count(rs@),
            RepoOutcome::OpenFailed => 0nat,
        }) + spec_changes(os.drop_first())
    }
}

proof fn lemma_resolvable_count_snoc(rs: Seq<StatusRecord>, r: StatusRecord)
    ensures
        spec_resolvable_count(rs.push(r)) == spec_resolvable_count(rs) + (if r.path is Some {
            1nat
        } else {
            0nat
        }),
    decreases rs.len(),
{
    if rs.len() == 0 {
        reveal_with_fuel(spec_resolvable_count, 2);
        assert(rs.push(r)[0] == r);
        assert(rs.push(r).drop_first() =~= Seq::<StatusRecord>::empty());
    } else {
        assert(rs.push(r)[0] == rs[0]);
        assert(rs.push(r).drop_first() =~= rs.drop_first().push(r));
        lemma_resolvable_count_snoc(rs.drop_first(), r);
    }
}

proof fn lemma_totals_snoc(os: Seq<RepoOutcome>, o: RepoOutcome)
    ensures
        spec_repos(os.push(o)) == spec_repos(os) + (match o {
            RepoOutcome::Opened(_) => 1nat,
            RepoOutcome::OpenFailed => 0nat,
        }),
        spec_changes(os.push(o)) == spec_changes(os) + (match o {
            RepoOutcome::Opened(rs) => spec_resolvable_count(rs@),
            RepoOutcome::OpenFailed => 0nat,
        }),
    decreases os.len(),
{
    if os.len() == 0 {
        reveal_with_fuel(spec_repos, 2);
        reveal_with_fuel(spec_changes, 2);
        assert(os.push(o)[0] == o);
        assert(os.push(o).drop_first() =~= Seq::<RepoOutcome>::empty());
    } else {
        assert(os.push(o)[0] == os[0]);
        assert(os.push(o).drop_first() =~= os.drop_first().push(o));
        lemma_totals_snoc(os.drop_first(), o);
    }
}

/// Counts the records that carry a resolvable path.
pub fn count_resolvable(records: &Vec<StatusRecord>) -> (n: usize)
    ensures
        n == spec_resolvable_count(records@),
{
    let mut n: usize = 0;
    let mut i: usize = 0;
    while i < records.len()
        invariant
            i <= records@.len(),
            n <= i,
            n == spec_resolvable_count(records@.take(i as int)),
        decreases records@.len() - i,
    {
        proof {
            lemma_resolvable_count_snoc(records@.take(i as int), records@[i as int]);
            assert(records@.take(i + 1) =~= records@.take(i as int).push(records@[i as int]));
        }
        if records[i].path.is_some() {
            n += 1;
        }
        i += 1;
    }
    proof {
        assert(records@.take(records@.len() as int) =~= records@);
    }
    n
}

/// Folds the per-repository outcomes into the scan totals. The repository
/// count is exact; the change count is exact as long as it fits the counter,
/// and stays at the counter's largest value beyond that.
pub fn summarize(outcomes: &Vec<RepoOutcome>) -> (totals: ScanTotals)
    ensures
        totals.repos == spec_repos(outcomes@),
        spec_changes(outcomes@) <= u64::MAX ==> totals.changes == spec_changes(outcomes@),
        spec_changes(outcomes@) > u64::MAX ==> totals.changes == u64::MAX,
{
    let mut repos: usize = 0;
    let mut changes: u64 = 0;
    let mut i: usize = 0;
    while i < outcomes.len()
        invariant
            i <= outcomes@.len(),
            repos <= i,
            repos == spec_repos(outcomes@.take(i as int)),
            spec_changes(outcomes@.take(i as int)) <= u64::MAX ==> changes == spec_changes(
                outcomes@.take(i as int),
            ),
            spec_changes(outcomes@.take(i as int)) > u64::MAX ==> changes == u64::MAX,
        decreases outcomes@.len() - i,
    {
        proof {
            lemma_totals_snoc(outcomes@.take(i as int), outcomes@[i as int]);
            assert(outcomes@.take(i + 1) =~= outcomes@.take(i as int).push(outcomes@[i as int]));
        }
        match &outcomes[i] {
            RepoOutcome::Opened(records) => {
                repos += 1;
                let c = count_resolvable(records);
                if c as u64 <= u64::MAX - changes {
                    changes += c as u64;
                } else {
                    changes = u64::MAX;
                }
            },
            RepoOutcome::OpenFailed => {},
        }
        i += 1;
    }
    proof {
        assert(outcomes@.take(outcomes@.len() as int) =~= outcomes@);
    }
    ScanTotals { repos, changes }
}

/// The report line for one changed path: the repository's path, the
/// repository-relative path, and the symbolic status flags.
pub open spec fn spec_line(repo: Seq<char>, rel: Seq<char>, sym: Seq<char>) -> Seq<char> {
    repo + "/"@ + rel + " - "@ + sym
}

/// The report lines of one opened repository, in record order: one line per
/// record with a resolvable path, and none for any other record.
pub open spec fn spec_repo_lines(repo: Seq<char>, rs: Seq<StatusRecord>) -> Seq<Seq<char>>
    decreases rs,
{
    if rs.len() == 0 {
        Seq::empty()
    } else {
        let rest = spec_repo_lines(repo, rs.drop_first());
        match rs[0].path {
            Some(p) => seq![spec_line(repo, p@, rs[0].symbolic@)] + rest,
            None => rest,
        }
    }
}

proof fn lemma_repo_lines_snoc(repo: Seq<char>, rs: Seq<StatusRecord>, r: StatusRecord)
    ensures
        spec_repo_lines(repo, rs.push(r)) == (match r.path {
            Some(p) => spec_repo_lines(repo, rs).push(spec_line(repo, p@, r.symbolic@)),
            None => spec_repo_lines(repo, rs),
        }),
    decreases rs.len(),
{
    if rs.len() == 0 {
        reveal_with_fuel(spec_repo_lines, 2);
        assert(rs.push(r)[0] == r);
        assert(rs.push(r).drop_first() =~= Seq::<StatusRecord>::empty());
        match r.path {
            Some(p) => {
                assert(spec_repo_lines(repo, rs.push(r)) =~= spec_repo_lines(repo, rs).push(
                    spec_line(repo, p@, r.symbolic@),
                ));
            },
            None => {},
        }
    } else {
        assert(rs.push(r)[0] == rs[0]);
        assert(rs.push(r).drop_first() =~= rs.drop_first().push(r));
        lemma_repo_lines_snoc(repo, rs.drop_first(), r);
        match r.path {
            Some(p) => {
                assert(spec_repo_lines(repo, rs.push(r)) =~= spec_repo_lines(repo, rs).push(
                    spec_line(repo, p@, r.symbolic@),
                ));
            },
            None => {},
        }
    }
}

/// Builds the report lines of one opened repository at `repo_path`.
pub fn repo_lines(repo_path: &String, records: &Vec<StatusRecord>) -> (lines: Vec<String>)
    ensures
        lines.deep_view() == spec_repo_lines(repo_path@, records@),
{
    let mut lines: Vec<String> = Vec::new();
    let mut i: usize = 0;
    while i < records.len()
        invariant
            i <= records@.len(),
            lines.deep_view() == spec_repo_lines(repo_path@, records@.take(i as int)),
        decreases records@.len() - i,
    {
        proof {
            lemma_repo_lines_snoc(repo_path@, records@.take(i as int), records@[i as int]);
            assert(records@.take(i + 1) =~= records@.take(i as int).push(records@[i as int]));
        }
        match &records[i].path {
            Some(rel) => {
                let mut line = repo_path.clone();
                line.append("/");
                line.append(rel.as_str());
                line.append(" - ");
                line.append(records[i].symbolic.as_str());
                proof {
                    assert(line@ =~= spec_line(repo_path@, rel@, records@[i as int].symbolic@));
                }
                let ghost old_lines = lines.deep_view();
                lines.push(line);
                proof {
                    assert(lines.deep_view() =~= old_lines.push(line@));
                }
            },
            None => {},
        }
        i += 1;
    }
    proof {
        assert(records@.take(records@.len() as int) =~= records@);
    }
    lines
}

/// A repository with no status records — no working-tree difference from
/// HEAD and no untracked files — adds one to the repository count, nothing
/// to the change count, and yields no report line.
pub proof fn lemma_clean_repo_adds_nothing(
    os: Seq<RepoOutcome>,
    rs: Vec<StatusRecord>,
    repo: Seq<char>,
)
    requires
        rs@.len() == 0,
    ensures
        spec_repos(os.push(RepoOutcome::Opened(rs))) == spec_repos(os) + 1,
        spec_changes(os.push(RepoOutcome::Opened(rs))) == spec_changes(os),
        spec_repo_lines(repo, rs@) == Seq::<Seq<char>>::empty(),
{
    lemma_totals_snoc(os, RepoOutcome::Opened(rs));
}

/// Replacing one opened repository's records by the same records plus one
/// more that carries a resolvable path — one newly untracked file, say —
/// keeps the repository count, raises the total change count by exactly one,
/// and appends exactly one report line, which names that record's path.
pub proof fn lemma_one_more_record_adds_one(
    os1: Seq<RepoOutcome>,
    os2: Seq<RepoOutcome>,
    k: int,
    rs1: Vec<StatusRecord>,
    rs2: Vec<StatusRecord>,
    r: StatusRecord,
    repo: Seq<char>,
)
    requires
        0 <= k < os1.len(),
        os1.len() == os2.len(),
        forall|i: int| 0 <= i < os1.len() && i != k ==> os1[i] == os2[i],
        os1[k] == RepoOutcome::Opened(rs1),
        os2[k] == RepoOutcome::Opened(rs2),
        rs2@ == rs1@.push(r),
        r.path is Some,
    ensures
        spec_repos(os2) == spec_repos(os1),
        spec_changes(os2) == spec_changes(os1) + 1,
        spec_repo_lines(repo, rs2@) == spec_repo_lines(repo, rs1@).push(
            spec_line(repo, r.path->0@, r.symbolic@),
        ),
    decreases os1.len(),
{
    lemma_repo_lines_snoc(repo, rs1@, r);
    if k == 0 {
        lemma_resolvable_count_snoc(rs1@, r);
        assert(os1.drop_first() =~= os2.drop_first());
    } else {
        assert(os1[0] == os2[0]);
        assert(forall|i: int|
            0 <= i < os1.drop_first().len() && i != k - 1 ==> os1.drop_first()[i]
                == os2.drop_first()[i]);
        lemma_one_more_record_adds_one(
            os1.drop_first(),
            os2.drop_first(),
            k - 1,
            rs1,
            rs2,
            r,
            repo,
        );
    }
}

} // verus!
