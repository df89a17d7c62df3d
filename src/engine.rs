//! Deriving the version of a history from a walk of its commits.
use vstd::prelude::*;
use crate::annotation::{commit_command, resolve_commit};
use crate::command::{CmdView, CountMethod, VersionCmd};
use crate::fold::{
    calculate_version, fold_version, lemma_commit_policy_counts_commits,
    lemma_manual_ignores_implicit_bumps, FoldFault,
};
use crate::text::{chars_of, same_chars};
use crate::version::{plain_version, Version, VersionView};

verus! {

/// One commit of a walk: its id, how many parents it has, and the text of its
/// annotation if it has one.
#[derive(Clone, Debug, PartialEq, Eq)]
pub struct CommitInfo {
    pub id: String,
    pub parent_count: usize,
    pub note: Option<String>,
}

pub struct CommitView {
    pub id: Seq<char>,
    pub parent_count: nat,
    pub note: Option<Seq<char>>,
}

impl View for CommitInfo {
    type V = CommitView;

    open spec fn view(&self) -> CommitView {
        CommitView {
            id: self.id@,
            parent_count: self.parent_count as nat,
            note: match self.note {
                Some(s) => Some(s@),
                None => None,
            },
        }
    }
}

pub open spec fn walk_view(w: Seq<CommitInfo>) -> Seq<CommitView> {
    w.map_values(|c: CommitInfo| c@)
}

/// Why no version could be derived.
#[derive(Clone, Debug, PartialEq, Eq)]
pub enum DeriveError {
    /// No commit is reachable from the head.
    NoCommits,
    /// The set-version annotation of this commit does not denote a version.
    InvalidVersion { commit: String },
    /// Applying this commit's command would pass `u64::MAX`.
    Overflow { commit: String },
    /// The name given is not a counting policy.
    InvalidCountMethod { name: String },
}

pub enum DeriveErrorView {
    NoCommits,
    InvalidVersion { commit: Seq<char> },
    Overflow { commit: Seq<char> },
    InvalidCountMethod { name: Seq<char> },
}

impl View for DeriveError {
    type V = DeriveErrorView;

    open spec fn view(&self) -> DeriveErrorView {
        match self {
            DeriveError::NoCommits => DeriveErrorView::NoCommits,
            DeriveError::InvalidVersion { commit } => DeriveErrorView::InvalidVersion { commit: commit@ },
            DeriveError::Overflow { commit } => DeriveErrorView::Overflow { commit: commit@ },
            DeriveError::InvalidCountMethod { name } => DeriveErrorView::InvalidCountMethod { name: name@ },
        }
    }
}

/// The commands of a walk in walk order, each with the index of its commit.
pub open spec fn walk_commands(w: Seq<CommitView>) -> Seq<(CmdView, int)>
    decreases w.len(),
{
    if w.len() == 0 {
        Seq::empty()
    } else {
        let r = walk_commands(w.drop_last());
        match commit_command(w.last().parent_count, w.last().note) {
            Some(c) => r.push((c, w.len() - 1)),
            None => r,
        }
    }
}

/// The commands of a walk, oldest first.
pub open spec fn chronological_commands(w: Seq<CommitView>) -> Seq<CmdView> {
    walk_commands(w).reverse().map_values(|p: (CmdView, int)| p.0)
}

/// The version of a walk given newest first: its commands replayed oldest first.
pub open spec fn derive_spec(w: Seq<CommitView>, m: CountMethod) -> Result<VersionView, DeriveErrorView> {
    if w.len() == 0 {
        Err(DeriveErrorView::NoCommits)
    } else {
        match fold_version(chronological_commands(w), m) {
            Ok(v) => Ok(v),
            Err((k, f)) => {
                let id = w[walk_commands(w).reverse()[k].1].id;
                match f {
                    FoldFault::InvalidVersion => Err(DeriveErrorView::InvalidVersion { commit: id }),
                    FoldFault::Overflow => Err(DeriveErrorView::Overflow { commit: id }),
                }
            },
        }
    }
}

pub open spec fn derive_result_view(r: Result<Version, DeriveError>) -> Result<VersionView, DeriveErrorView> {
    match r {
        Ok(v) => Ok(v@),
        Err(e) => Err(e@),
    }
}

/// The version of the history whose commits `walk` lists from the head toward
/// the roots, each commit before its parents.
pub fn derive(walk: &Vec<CommitInfo>, method: CountMethod) -> (r: Result<Version, DeriveError>)
    ensures
        derive_result_view(r) == derive_spec(walk_view(walk@), method),
{
    let ghost wv = walk_view(walk@);
    if walk.len() == 0 {
        return Err(DeriveError::NoCommits);
    }
    // The commands in walk order, newest first, with the index of each one's commit.
    let mut cmds: Vec<VersionCmd> = Vec::new();
    let mut origin: Vec<usize> = Vec::new();
    let mut i: usize = 0;
    assert(wv.take(0) =~= Seq::<CommitView>::empty());
    while i < walk.len()
        invariant
            i <= walk.len(),
            wv == walk_view(walk@),
            cmds.len() == origin.len(),
            cmds.len() == walk_commands(wv.take(i as int)).len(),
            forall|j: int| 0 <= j < cmds.len() ==> (#[trigger] cmds@[j]@, origin@[j] as int)
                == walk_commands(wv.take(i as int))[j],
            forall|j: int| 0 <= j < origin.len() ==> #[trigger] origin@[j] < i,
        decreases walk.len() - i,
    {
        assert(wv.take(i + 1).drop_last() =~= wv.take(i as int));
        assert(wv.take(i + 1).last() == walk@[i as int]@);
        match resolve_commit(walk[i].parent_count, &walk[i].note) {
            Some(c) => {
                cmds.push(c);
                origin.push(i);
            },
            None => {},
        }
        i = i + 1;
    }
    assert(wv.take(i as int) =~= wv);
    let ghost full = walk_commands(wv);
    let n = cmds.len();
    // Popping from the back turns them oldest first.
    let mut chron: Vec<VersionCmd> = Vec::new();
    let mut chron_origin: Vec<usize> = Vec::new();
    while cmds.len() > 0
        invariant
            n == full.len(),
            cmds.len() == origin.len(),
            chron.len() == chron_origin.len(),
            cmds.len() + chron.len() == n,
            forall|j: int| 0 <= j < cmds.len() ==> (#[trigger] cmds@[j]@, origin@[j] as int) == full[j],
            forall|j: int| 0 <= j < chron.len() ==> (#[trigger] chron@[j]@, chron_origin@[j] as int)
                == full[n - 1 - j],
            forall|j: int| 0 <= j < origin.len() ==> #[trigger] origin@[j] < walk.len(),
            forall|j: int| 0 <= j < chron_origin.len() ==> #[trigger] chron_origin@[j] < walk.len(),
        decreases cmds.len(),
    {
        let c = cmds.pop().unwrap();
        let o = origin.pop().unwrap();
        chron.push(c);
        chron_origin.push(o);
    }
    assert(crate::fold::commands_view(chron@) =~= chronological_commands(wv));
    match calculate_version(&chron, method) {
        Ok(v) => Ok(v),
        Err(e) => {
            proof {
                let k = e.index as int;
                assert(k < chron.len());
                assert((chron@[k]@, chron_origin@[k] as int) == full[n - 1 - k]);
                assert(full.reverse()[k] == full[n - 1 - k]);
                assert(full.reverse()[k].1 == chron_origin@[k] as int);
                assert(wv[chron_origin@[k] as int] == walk@[chron_origin@[k] as int]@);
            }
            let commit = walk[chron_origin[e.index]].id.clone();
            match e.fault {
                FoldFault::InvalidVersion => Err(DeriveError::InvalidVersion { commit }),
                FoldFault::Overflow => Err(DeriveError::Overflow { commit }),
            }
        },
    }
}

/// Equal walks under one policy give equal results: the derivation depends on
/// nothing but the walk and the policy.
pub proof fn lemma_derive_deterministic(a: Seq<CommitView>, b: Seq<CommitView>, m: CountMethod)
    requires
        a == b,
    ensures
        derive_spec(a, m) == derive_spec(b, m),
{
}

/// A walk with no commit fails with `NoCommits`.
pub proof fn lemma_empty_walk_has_no_version(m: CountMethod)
    ensures
        derive_spec(Seq::empty(), m) == Err::<VersionView, DeriveErrorView>(DeriveErrorView::NoCommits),
{
}

proof fn lemma_unannotated_walk_commands(w: Seq<CommitView>)
    requires
        forall|i: int| 0 <= i < w.len() ==> (#[trigger] w[i]).note is None,
    ensures
        forall|j: int| 0 <= j < walk_commands(w).len() ==> (#[trigger] walk_commands(w)[j]).0 is IncPatchMerge
            || walk_commands(w)[j].0 is IncPatchCommit,
    decreases w.len(),
{
    if w.len() > 0 {
        assert(w.last() == w[w.len() - 1]);
        lemma_unannotated_walk_commands(w.drop_last());
    }
}

/// Under manual counting, a history without annotations stays at `0.0.0`,
/// whatever its shape or depth.
pub proof fn lemma_manual_policy_unannotated(w: Seq<CommitView>)
    requires
        w.len() > 0,
        forall|i: int| 0 <= i < w.len() ==> (#[trigger] w[i]).note is None,
    ensures
        derive_spec(w, CountMethod::Manual) == Ok::<VersionView, DeriveErrorView>(plain_version(0, 0, 0)),
{
    lemma_unannotated_walk_commands(w);
    let wc = walk_commands(w);
    let c = chronological_commands(w);
    assert forall|i: int| 0 <= i < c.len() implies (#[trigger] c[i] is IncPatchMerge || c[i] is IncPatchCommit) by {
        assert(c[i] == wc[wc.len() - 1 - i].0);
    }
    lemma_manual_ignores_implicit_bumps(c);
}

/// `w` lists a chain of commits without annotations, newest first: each has one
/// parent but the last, the root.
pub open spec fn is_unannotated_chain(w: Seq<CommitView>) -> bool {
    &&& w.len() > 0
    &&& w[w.len() - 1].parent_count == 0
    &&& forall|i: int| 0 <= i < w.len() - 1 ==> (#[trigger] w[i]).parent_count == 1
    &&& forall|i: int| 0 <= i < w.len() ==> (#[trigger] w[i]).note is None
}

proof fn lemma_chain_commands(w: Seq<CommitView>, k: int)
    requires
        is_unannotated_chain(w),
        0 <= k <= w.len() - 1,
    ensures
        walk_commands(w.take(k)).len() == k,
        forall|j: int| 0 <= j < k ==> (#[trigger] walk_commands(w.take(k))[j]).0 is IncPatchCommit,
    decreases k,
{
    if k > 0 {
        lemma_chain_commands(w, k - 1);
        assert(w.take(k).drop_last() =~= w.take(k - 1));
        assert(w.take(k).last() == w[k - 1]);
    }
}

/// Under commit counting, a chain of `n` commits without annotations gives
/// `0.0.(n-1)`.
pub proof fn lemma_chain_commit_policy(w: Seq<CommitView>)
    requires
        is_unannotated_chain(w),
        w.len() - 1 <= u64::MAX,
    ensures
        derive_spec(w, CountMethod::Commit) == Ok::<VersionView, DeriveErrorView>(
            plain_version(0, 0, (w.len() - 1) as u64),
        ),
{
    let n = w.len();
    lemma_chain_commands(w, n - 1);
    assert(w.take(n - 1) =~= w.drop_last());
    assert(w.last() == w[n - 1]);
    let wc = walk_commands(w);
    assert(wc == walk_commands(w.take(n - 1)));
    let c = chronological_commands(w);
    assert forall|i: int| 0 <= i < c.len() implies #[trigger] c[i] is IncPatchCommit by {
        assert(c[i] == wc[wc.len() - 1 - i].0);
    }
    lemma_commit_policy_counts_commits(c);
}

/// The counting policy a name stands for: `merge`, `commit` or `manual`.
pub open spec fn count_method_named(name: Seq<char>) -> Option<CountMethod> {
    if name == MERGE_NAME@ {
        Some(CountMethod::Merge)
    } else if name == COMMIT_NAME@ {
        Some(CountMethod::Commit)
    } else if name == MANUAL_NAME@ {
        Some(CountMethod::Manual)
    } else {
        None
    }
}

pub const MERGE_NAME: &'static str = "merge";

pub const COMMIT_NAME: &'static str = "commit";

pub const MANUAL_NAME: &'static str = "manual";

/// The counting policy named `name`; any other name is rejected.
pub fn parse_count_method(name: &str) -> (r: Result<CountMethod, DeriveError>)
    ensures
        match count_method_named(name@) {
            Some(m) => r == Ok::<CountMethod, DeriveError>(m),
            None => r is Err && r->Err_0@ == (DeriveErrorView::InvalidCountMethod { name: name@ }),
        },
{
    let chars = chars_of(name);
    if same_chars(&chars, &chars_of(MERGE_NAME)) {
        Ok(CountMethod::Merge)
    } else if same_chars(&chars, &chars_of(COMMIT_NAME)) {
        Ok(CountMethod::Commit)
    } else if same_chars(&chars, &chars_of(MANUAL_NAME)) {
        Ok(CountMethod::Manual)
    } else {
        Err(DeriveError::InvalidCountMethod { name: name.to_string() })
    }
}

} // verus!
