//! Replaying version commands, oldest first, into a version.
use vstd::prelude::*;
use crate::command::{CmdView, CountMethod, VersionCmd};
use crate::version::{
    bumped_major, bumped_minor, bumped_patch, plain_version, with_pre, Identifier,
    IdentifierView, Version, VersionView,
};
use crate::version_text::{parse_version, parse_version_text};

verus! {

/// The version so far, and whether the next merge's implicit patch bump is
/// to be skipped because a major or minor bump came before it.
pub struct FoldState {
    pub version: Version,
    pub suppress_next_merge_patch: bool,
}

pub struct FoldStateView {
    pub version: VersionView,
    pub suppress_next_merge_patch: bool,
}

impl View for FoldState {
    type V = FoldStateView;

    open spec fn view(&self) -> FoldStateView {
        FoldStateView {
            version: self.version@,
            suppress_next_merge_patch: self.suppress_next_merge_patch,
        }
    }
}

/// Why a command could not be applied.
#[derive(Clone, Copy, Debug, PartialEq, Eq, Structural)]
pub enum FoldFault {
    /// A set-version text does not denote a version.
    InvalidVersion,
    /// A version number would pass `u64::MAX`.
    Overflow,
}

/// The first command that could not be applied, by its index, and why.
#[derive(Clone, Copy, Debug, PartialEq, Eq, Structural)]
pub struct FoldError {
    pub index: usize,
    pub fault: FoldFault,
}

/// `0.0.0`, nothing suppressed.
pub open spec fn initial_state() -> FoldStateView {
    FoldStateView { version: plain_version(0, 0, 0), suppress_next_merge_patch: false }
}

/// The patch bumped, the flag kept.
pub open spec fn patch_step(s: FoldStateView) -> Result<FoldStateView, FoldFault> {
    if s.version.patch == u64::MAX {
        Err(FoldFault::Overflow)
    } else {
        Ok(FoldStateView { version: bumped_patch(s.version), ..s })
    }
}

/// One command applied to a state under a counting policy.
pub open spec fn step(s: FoldStateView, c: CmdView, m: CountMethod) -> Result<FoldStateView, FoldFault> {
    match c {
        CmdView::IncMajor => if s.version.major == u64::MAX {
            Err(FoldFault::Overflow)
        } else {
            Ok(FoldStateView { version: bumped_major(s.version), suppress_next_merge_patch: true })
        },
        CmdView::IncMinor => if s.version.minor == u64::MAX {
            Err(FoldFault::Overflow)
        } else {
            Ok(FoldStateView { version: bumped_minor(s.version), suppress_next_merge_patch: true })
        },
        CmdView::IncPatchMerge => if s.suppress_next_merge_patch {
            Ok(FoldStateView { suppress_next_merge_patch: false, ..s })
        } else if m == CountMethod::Merge {
            patch_step(s)
        } else {
            Ok(s)
        },
        CmdView::IncPatchCommit => if m == CountMethod::Commit {
            patch_step(s)
        } else {
            Ok(s)
        },
        CmdView::IncPatchManual => if m == CountMethod::Manual || m == CountMethod::Commit {
            patch_step(s)
        } else {
            Ok(s)
        },
        CmdView::SetVersion(t) => match parse_version_text(t) {
            Some(v) => Ok(FoldStateView { version: v, ..s }),
            None => Err(FoldFault::InvalidVersion),
        },
        CmdView::SetPrereleaseLabel(l) => Ok(
            FoldStateView { version: with_pre(s.version, seq![IdentifierView::AlphaNumeric(l)]), ..s },
        ),
        CmdView::ClearPrereleaseLabel => Ok(
            FoldStateView { version: with_pre(s.version, Seq::empty()), ..s },
        ),
    }
}

/// The commands applied in order from the initial state; on failure, the index
/// of the first command that failed and why.
pub open spec fn fold_commands(cmds: Seq<CmdView>, m: CountMethod) -> Result<FoldStateView, (int, FoldFault)>
    decreases cmds.len(),
{
    if cmds.len() == 0 {
        Ok(initial_state())
    } else {
        match fold_commands(cmds.drop_last(), m) {
            Ok(s) => match step(s, cmds.last(), m) {
                Ok(s2) => Ok(s2),
                Err(f) => Err((cmds.len() - 1, f)),
            },
            Err(e) => Err(e),
        }
    }
}

/// The version that [`fold_commands`] ends with.
pub open spec fn fold_version(cmds: Seq<CmdView>, m: CountMethod) -> Result<VersionView, (int, FoldFault)> {
    match fold_commands(cmds, m) {
        Ok(s) => Ok(s.version),
        Err(e) => Err(e),
    }
}

pub open spec fn commands_view(cmds: Seq<VersionCmd>) -> Seq<CmdView> {
    cmds.map_values(|c: VersionCmd| c@)
}

/// Once a prefix fails, the whole sequence fails the same way.
pub proof fn lemma_fold_failure_persists(cmds: Seq<CmdView>, n: int, m: CountMethod)
    requires
        0 <= n <= cmds.len(),
        fold_commands(cmds.take(n), m) is Err,
    ensures
        fold_commands(cmds, m) == fold_commands(cmds.take(n), m),
    decreases cmds.len() - n,
{
    if n < cmds.len() {
        assert(cmds.take(n + 1).drop_last() =~= cmds.take(n));
        lemma_fold_failure_persists(cmds, n + 1, m);
    } else {
        assert(cmds.take(n) =~= cmds);
    }
}

/// A minor bump followed by a merge: the merge's implicit patch bump is
/// suppressed, whatever came before and whatever the policy.
pub proof fn lemma_minor_bump_suppresses_next_merge(prefix: Seq<CmdView>, m: CountMethod)
    requires
        fold_commands(prefix, m) is Ok,
        fold_commands(prefix, m)->Ok_0.version.minor < u64::MAX,
    ensures
        fold_version(prefix + seq![CmdView::IncMinor, CmdView::IncPatchMerge], m)
            == Ok::<VersionView, (int, FoldFault)>(bumped_minor(fold_commands(prefix, m)->Ok_0.version)),
{
    let cmds = prefix + seq![CmdView::IncMinor, CmdView::IncPatchMerge];
    let first = prefix.push(CmdView::IncMinor);
    assert(first.drop_last() =~= prefix);
    assert(first.last() == CmdView::IncMinor);
    assert(cmds.drop_last() =~= first);
    assert(cmds.last() == CmdView::IncPatchMerge);
    let v = fold_commands(prefix, m)->Ok_0.version;
    assert(fold_commands(first, m) == Ok::<FoldStateView, (int, FoldFault)>(
        FoldStateView { version: bumped_minor(v), suppress_next_merge_patch: true },
    ));
    assert(fold_commands(cmds, m) == Ok::<FoldStateView, (int, FoldFault)>(
        FoldStateView { version: bumped_minor(v), suppress_next_merge_patch: false },
    ));
}

/// A major bump followed by a merge: the merge's implicit patch bump is
/// suppressed, whatever came before and whatever the policy.
pub proof fn lemma_major_bump_suppresses_next_merge(prefix: Seq<CmdView>, m: CountMethod)
    requires
        fold_commands(prefix, m) is Ok,
        fold_commands(prefix, m)->Ok_0.version.major < u64::MAX,
    ensures
        fold_version(prefix + seq![CmdView::IncMajor, CmdView::IncPatchMerge], m)
            == Ok::<VersionView, (int, FoldFault)>(bumped_major(fold_commands(prefix, m)->Ok_0.version)),
{
    let cmds = prefix + seq![CmdView::IncMajor, CmdView::IncPatchMerge];
    let first = prefix.push(CmdView::IncMajor);
    assert(first.drop_last() =~= prefix);
    assert(first.last() == CmdView::IncMajor);
    assert(cmds.drop_last() =~= first);
    assert(cmds.last() == CmdView::IncPatchMerge);
    let v = fold_commands(prefix, m)->Ok_0.version;
    assert(fold_commands(first, m) == Ok::<FoldStateView, (int, FoldFault)>(
        FoldStateView { version: bumped_major(v), suppress_next_merge_patch: true },
    ));
    assert(fold_commands(cmds, m) == Ok::<FoldStateView, (int, FoldFault)>(
        FoldStateView { version: bumped_major(v), suppress_next_merge_patch: false },
    ));
}

/// Suppression is a flag, not a counter: two minor bumps followed by two merges
/// under merge counting suppress only the first merge.
pub proof fn lemma_suppression_is_not_counted(prefix: Seq<CmdView>)
    requires
        fold_commands(prefix, CountMethod::Merge) is Ok,
        fold_commands(prefix, CountMethod::Merge)->Ok_0.version.minor < u64::MAX - 1,
    ensures
        fold_version(
            prefix + seq![CmdView::IncMinor, CmdView::IncMinor, CmdView::IncPatchMerge, CmdView::IncPatchMerge],
            CountMethod::Merge,
        ) == Ok::<VersionView, (int, FoldFault)>(
            bumped_patch(bumped_minor(bumped_minor(fold_commands(prefix, CountMethod::Merge)->Ok_0.version))),
        ),
{
    let c1 = prefix.push(CmdView::IncMinor);
    let c2 = c1.push(CmdView::IncMinor);
    let c3 = c2.push(CmdView::IncPatchMerge);
    let c4 = c3.push(CmdView::IncPatchMerge);
    assert(c1.drop_last() =~= prefix);
    assert(c2.drop_last() =~= c1);
    assert(c3.drop_last() =~= c2);
    assert(c4.drop_last() =~= c3);
    let v = fold_commands(prefix, CountMethod::Merge)->Ok_0.version;
    let m = CountMethod::Merge;
    assert(fold_commands(c1, m) == Ok::<FoldStateView, (int, FoldFault)>(
        FoldStateView { version: bumped_minor(v), suppress_next_merge_patch: true },
    ));
    assert(fold_commands(c2, m) == Ok::<FoldStateView, (int, FoldFault)>(
        FoldStateView { version: bumped_minor(bumped_minor(v)), suppress_next_merge_patch: true },
    ));
    assert(fold_commands(c3, m) == Ok::<FoldStateView, (int, FoldFault)>(
        FoldStateView { version: bumped_minor(bumped_minor(v)), suppress_next_merge_patch: false },
    ));
    assert(fold_commands(c4, m) == Ok::<FoldStateView, (int, FoldFault)>(
        FoldStateView { version: bumped_patch(bumped_minor(bumped_minor(v))), suppress_next_merge_patch: false },
    ));
    assert(c4 =~= prefix + seq![CmdView::IncMinor, CmdView::IncMinor, CmdView::IncPatchMerge, CmdView::IncPatchMerge]);
}

/// A set-version command makes the version exactly the one its text denotes,
/// whatever came before; a minor bump right after it bumps that version.
pub proof fn lemma_set_version_overrides(prefix: Seq<CmdView>, t: Seq<char>, m: CountMethod)
    requires
        fold_commands(prefix, m) is Ok,
        parse_version_text(t) is Some,
    ensures
        fold_version(prefix.push(CmdView::SetVersion(t)), m)
            == Ok::<VersionView, (int, FoldFault)>(parse_version_text(t)->0),
        parse_version_text(t)->0.minor < u64::MAX ==> fold_version(
            prefix + seq![CmdView::SetVersion(t), CmdView::IncMinor],
            m,
        ) == Ok::<VersionView, (int, FoldFault)>(bumped_minor(parse_version_text(t)->0)),
{
    assert(prefix.push(CmdView::SetVersion(t)).drop_last() =~= prefix);
    let cmds = prefix + seq![CmdView::SetVersion(t), CmdView::IncMinor];
    assert(cmds.drop_last() =~= prefix.push(CmdView::SetVersion(t)));
}

/// Under manual counting, implicit merge and commit bumps never move the
/// version: any sequence of them ends at `0.0.0`.
pub proof fn lemma_manual_ignores_implicit_bumps(cmds: Seq<CmdView>)
    requires
        forall|i: int| 0 <= i < cmds.len() ==> (#[trigger] cmds[i] is IncPatchMerge || cmds[i] is IncPatchCommit),
    ensures
        fold_commands(cmds, CountMethod::Manual) == Ok::<FoldStateView, (int, FoldFault)>(initial_state()),
    decreases cmds.len(),
{
    if cmds.len() > 0 {
        lemma_manual_ignores_implicit_bumps(cmds.drop_last());
        assert(cmds.last() == cmds[cmds.len() - 1]);
    }
}

/// Under commit counting, `n` implicit commit bumps end at `0.0.n`.
pub proof fn lemma_commit_policy_counts_commits(cmds: Seq<CmdView>)
    requires
        cmds.len() <= u64::MAX,
        forall|i: int| 0 <= i < cmds.len() ==> #[trigger] cmds[i] is IncPatchCommit,
    ensures
        fold_commands(cmds, CountMethod::Commit) == Ok::<FoldStateView, (int, FoldFault)>(
            FoldStateView { version: plain_version(0, 0, cmds.len() as u64), suppress_next_merge_patch: false },
        ),
    decreases cmds.len(),
{
    if cmds.len() > 0 {
        lemma_commit_policy_counts_commits(cmds.drop_last());
        assert(cmds.last() == cmds[cmds.len() - 1]);
    }
}

impl FoldState {
    /// `0.0.0`, nothing suppressed.
    pub fn new() -> (r: FoldState)
        ensures
            r@ == initial_state(),
    {
        FoldState { version: Version::new(0, 0, 0), suppress_next_merge_patch: false }
    }

    fn bump_patch(&mut self) -> (r: Result<(), FoldFault>)
        ensures
            match r {
                Ok(()) => patch_step(old(self)@) == Ok::<FoldStateView, FoldFault>(final(self)@),
                Err(f) => patch_step(old(self)@) == Err::<FoldStateView, FoldFault>(f),
            },
    {
        if self.version.patch == u64::MAX {
            return Err(FoldFault::Overflow);
        }
        self.version.increment_patch();
        Ok(())
    }

    /// Applies one command under `method`.
    pub fn apply(&mut self, cmd: &VersionCmd, method: CountMethod) -> (r: Result<(), FoldFault>)
        ensures
            match r {
                Ok(()) => step(old(self)@, cmd@, method) == Ok::<FoldStateView, FoldFault>(final(self)@),
                Err(f) => step(old(self)@, cmd@, method) == Err::<FoldStateView, FoldFault>(f),
            },
    {
        match cmd {
            VersionCmd::IncMajor => {
                if self.version.major == u64::MAX {
                    return Err(FoldFault::Overflow);
                }
                self.version.increment_major();
                self.suppress_next_merge_patch = true;
                Ok(())
            },
            VersionCmd::IncMinor => {
                if self.version.minor == u64::MAX {
                    return Err(FoldFault::Overflow);
                }
                self.version.increment_minor();
                self.suppress_next_merge_patch = true;
                Ok(())
            },
            VersionCmd::IncPatchMerge => {
                if self.suppress_next_merge_patch {
                    self.suppress_next_merge_patch = false;
                    Ok(())
                } else if method == CountMethod::Merge {
                    self.bump_patch()
                } else {
                    Ok(())
                }
            },
            VersionCmd::IncPatchCommit => {
                if method == CountMethod::Commit {
                    self.bump_patch()
                } else {
                    Ok(())
                }
            },
            VersionCmd::IncPatchManual => {
                if method == CountMethod::Manual || method == CountMethod::Commit {
                    self.bump_patch()
                } else {
                    Ok(())
                }
            },
            VersionCmd::SetVersion(text) => {
                match parse_version(text.as_str()) {
                    Some(v) => {
                        self.version = v;
                        Ok(())
                    },
                    None => Err(FoldFault::InvalidVersion),
                }
            },
            VersionCmd::SetPrereleaseLabel(label) => {
                self.version.pre = vec![Identifier::AlphaNumeric(label.clone())];
                assert(self.version@.pre =~= seq![IdentifierView::AlphaNumeric(label@)]);
                Ok(())
            },
            VersionCmd::ClearPrereleaseLabel => {
                self.version.pre = Vec::new();
                assert(self.version@.pre =~= Seq::<IdentifierView>::empty());
                Ok(())
            },
        }
    }
}

pub open spec fn fold_result_view(r: Result<Version, FoldError>) -> Result<VersionView, (int, FoldFault)> {
    match r {
        Ok(v) => Ok(v@),
        Err(e) => Err((e.index as int, e.fault)),
    }
}

/// Replays `cmds`, oldest first, from `0.0.0` under `method`.
pub fn calculate_version(cmds: &Vec<VersionCmd>, method: CountMethod) -> (r: Result<Version, FoldError>)
    ensures
        fold_result_view(r) == fold_version(commands_view(cmds@), method),
        r is Err ==> r->Err_0.index < cmds.len(),
{
    let ghost cv = commands_view(cmds@);
    let mut state = FoldState::new();
    let mut i: usize = 0;
    assert(cv.take(0) =~= Seq::<CmdView>::empty());
    while i < cmds.len()
        invariant
            i <= cmds.len(),
            cv == commands_view(cmds@),
            fold_commands(cv.take(i as int), method) == Ok::<FoldStateView, (int, FoldFault)>(state@),
        decreases cmds.len() - i,
    {
        assert(cv.take(i + 1).drop_last() =~= cv.take(i as int));
        match state.apply(&cmds[i], method) {
            Ok(()) => {},
            Err(f) => {
                proof {
                    lemma_fold_failure_persists(cv, i + 1, method);
                }
                return Err(FoldError { index: i, fault: f });
            },
        }
        i = i + 1;
    }
    assert(cv.take(i as int) =~= cv);
    Ok(state.version)
}

} // verus!
