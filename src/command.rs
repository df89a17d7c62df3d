//! Version commands and counting policies.
use vstd::prelude::*;

verus! {

/// What one commit asks of the version.
#[derive(Clone, Debug, PartialEq, Eq)]
pub enum VersionCmd {
    IncMajor,
    IncMinor,
    /// Implicit patch bump of a merge commit.
    IncPatchMerge,
    /// Implicit patch bump of a commit with one parent.
    IncPatchCommit,
    /// Explicit patch bump.
    IncPatchManual,
    /// Replace the whole version by the one this text denotes.
    SetVersion(String),
    /// Replace the prerelease by this single identifier.
    SetPrereleaseLabel(String),
    ClearPrereleaseLabel,
}

/// Mathematical value of a [`VersionCmd`].
pub enum CmdView {
    IncMajor,
    IncMinor,
    IncPatchMerge,
    IncPatchCommit,
    IncPatchManual,
    SetVersion(Seq<char>),
    SetPrereleaseLabel(Seq<char>),
    ClearPrereleaseLabel,
}

impl View for VersionCmd {
    type V = CmdView;

    open spec fn view(&self) -> CmdView {
        match self {
            VersionCmd::IncMajor => CmdView::IncMajor,
            VersionCmd::IncMinor => CmdView::IncMinor,
            VersionCmd::IncPatchMerge => CmdView::IncPatchMerge,
            VersionCmd::IncPatchCommit => CmdView::IncPatchCommit,
            VersionCmd::IncPatchManual => CmdView::IncPatchManual,
            VersionCmd::SetVersion(t) => CmdView::SetVersion(t@),
            VersionCmd::SetPrereleaseLabel(t) => CmdView::SetPrereleaseLabel(t@),
            VersionCmd::ClearPrereleaseLabel => CmdView::ClearPrereleaseLabel,
        }
    }
}

pub open spec fn option_cmd_view(c: Option<VersionCmd>) -> Option<CmdView> {
    match c {
        Some(x) => Some(x@),
        None => None,
    }
}

/// Which implicit patch bumps count.
#[derive(Clone, Copy, Debug, PartialEq, Eq, Structural)]
pub enum CountMethod {
    /// Merge commits bump the patch.
    Merge,
    /// Commits with one parent, and explicit patch bumps, bump the patch.
    Commit,
    /// Only explicit patch bumps bump the patch.
    Manual,
}

} // verus!
