//! Reading a commit's annotation as a [`VersionCmd`].
use vstd::prelude::*;
use crate::command::{CmdView, VersionCmd};
use crate::text::{chars_of, contains_chars, contains_seq, occurs_at};
use crate::version_text::{is_label, is_version_text};

verus! {

pub const MAJOR_KEYWORD: &'static str = "autover-inc-major";

pub const MINOR_KEYWORD: &'static str = "autover-inc-minor";

pub const PATCH_KEYWORD: &'static str = "autover-inc-patch";

pub const SET_VERSION_KEYWORD: &'static str = "autover-set-version";

pub const SET_PRERELEASE_KEYWORD: &'static str = "autover-set-prerelease-label";

pub const CLEAR_PRERELEASE_KEYWORD: &'static str = "autover-clear-prerelease-label";

/// The set-version command word, a space, and the version text as group 1.
pub const SET_VERSION_PATTERN: &'static str = r"autover-set-version ([0-9]+\.[0-9]+\.[0-9]+(?:-(?:[0-9A-Za-z-]+(?:\.[0-9A-Za-z-]+)*))?)";

/// The set-prerelease command word, a space, and the label as group 1.
pub const SET_PRERELEASE_PATTERN: &'static str = r"autover-set-prerelease-label ([0-9A-Za-z-]+(?:\.[0-9A-Za-z-]+)*)";

/// `s[j..e]` is a text of the version grammar.
pub open spec fn version_span(s: Seq<char>, j: int, e: int) -> bool {
    0 <= j <= e <= s.len() && is_version_text(s.subrange(j, e))
}

/// `s[j..e]` is a label.
pub open spec fn label_span(s: Seq<char>, j: int, e: int) -> bool {
    0 <= j <= e <= s.len() && is_label(s.subrange(j, e))
}

/// The set-version command word and a space stand at `i`, followed by a version text.
pub open spec fn set_version_match_at(s: Seq<char>, i: int) -> bool {
    let j = i + SET_VERSION_KEYWORD@.len() + 1;
    &&& occurs_at(s, SET_VERSION_KEYWORD@.push(' '), i)
    &&& exists|e: int| version_span(s, j, e)
}

/// The set-prerelease command word and a space stand at `i`, followed by a label.
pub open spec fn set_prerelease_match_at(s: Seq<char>, i: int) -> bool {
    let j = i + SET_PRERELEASE_KEYWORD@.len() + 1;
    &&& occurs_at(s, SET_PRERELEASE_KEYWORD@.push(' '), i)
    &&& exists|e: int| label_span(s, j, e)
}

/// The version text after the leftmost set-version command, taken as long as
/// the grammar allows.
#[verifier::opaque]
pub open spec fn set_version_capture(s: Seq<char>) -> Option<Seq<char>> {
    if exists|i: int| set_version_match_at(s, i) {
        let i = choose|i: int|
            set_version_match_at(s, i) && forall|k: int| k < i ==> !set_version_match_at(s, k);
        let j = i + SET_VERSION_KEYWORD@.len() + 1;
        let e = choose|e: int| version_span(s, j, e) && forall|f: int| version_span(s, j, f) ==> f <= e;
        Some(s.subrange(j, e))
    } else {
        None
    }
}

/// The label after the leftmost set-prerelease command, taken as long as the
/// grammar allows.
#[verifier::opaque]
pub open spec fn set_prerelease_capture(s: Seq<char>) -> Option<Seq<char>> {
    if exists|i: int| set_prerelease_match_at(s, i) {
        let i = choose|i: int|
            set_prerelease_match_at(s, i) && forall|k: int| k < i ==> !set_prerelease_match_at(s, k);
        let j = i + SET_PRERELEASE_KEYWORD@.len() + 1;
        let e = choose|e: int| label_span(s, j, e) && forall|f: int| label_span(s, j, f) ==> f <= e;
        Some(s.subrange(j, e))
    } else {
        None
    }
}

pub open spec fn option_string_view(r: Option<String>) -> Option<Seq<char>> {
    match r {
        Some(t) => Some(t@),
        None => None,
    }
}

/// Relies on regex::Regex::new and regex::Regex::captures: both patterns compile;
/// the match is leftmost-first, so it starts at the first command word that is
/// followed by a text of the group's grammar, and greedy repetition makes
/// group 1 the longest such text.
#[verifier::external_body]
fn first_capture(pattern: &str, text: &str) -> (r: Option<String>)
    requires
        pattern@ == SET_VERSION_PATTERN@ || pattern@ == SET_PRERELEASE_PATTERN@,
    ensures
        pattern@ == SET_VERSION_PATTERN@ ==> option_string_view(r) == set_version_capture(text@),
        pattern@ == SET_PRERELEASE_PATTERN@ ==> option_string_view(r) == set_prerelease_capture(text@),
{
    regex::Regex::new(pattern).unwrap().captures(text).map(|c| c[1].to_string())
}

/// The command an annotation text asks for; the first rule that applies wins.
pub open spec fn resolve_annotation(s: Seq<char>) -> Option<CmdView> {
    if contains_seq(s, MAJOR_KEYWORD@) {
        Some(CmdView::IncMajor)
    } else if contains_seq(s, MINOR_KEYWORD@) {
        Some(CmdView::IncMinor)
    } else if set_version_capture(s) is Some {
        Some(CmdView::SetVersion(set_version_capture(s)->0))
    } else if set_prerelease_capture(s) is Some {
        Some(CmdView::SetPrereleaseLabel(set_prerelease_capture(s)->0))
    } else if contains_seq(s, CLEAR_PRERELEASE_KEYWORD@) {
        Some(CmdView::ClearPrereleaseLabel)
    } else if contains_seq(s, PATCH_KEYWORD@) {
        Some(CmdView::IncPatchManual)
    } else {
        None
    }
}

/// The command of a commit: its annotation's when it has one, else an implicit
/// patch bump by its number of parents (none for a root).
pub open spec fn commit_command(parent_count: nat, note: Option<Seq<char>>) -> Option<CmdView> {
    match note {
        Some(s) => resolve_annotation(s),
        None => if parent_count > 1 {
            Some(CmdView::IncPatchMerge)
        } else if parent_count == 1 {
            Some(CmdView::IncPatchCommit)
        } else {
            None
        },
    }
}

/// The command that annotation text `message` asks for, if any.
pub fn match_message_to_cmd(message: &str) -> (r: Option<VersionCmd>)
    ensures
        crate::command::option_cmd_view(r) == resolve_annotation(message@),
{
    let chars = chars_of(message);
    if contains_chars(&chars, &chars_of(MAJOR_KEYWORD)) {
        return Some(VersionCmd::IncMajor);
    }
    if contains_chars(&chars, &chars_of(MINOR_KEYWORD)) {
        return Some(VersionCmd::IncMinor);
    }
    if let Some(t) = first_capture(SET_VERSION_PATTERN, message) {
        return Some(VersionCmd::SetVersion(t));
    }
    if let Some(t) = first_capture(SET_PRERELEASE_PATTERN, message) {
        return Some(VersionCmd::SetPrereleaseLabel(t));
    }
    if contains_chars(&chars, &chars_of(CLEAR_PRERELEASE_KEYWORD)) {
        return Some(VersionCmd::ClearPrereleaseLabel);
    }
    if contains_chars(&chars, &chars_of(PATCH_KEYWORD)) {
        return Some(VersionCmd::IncPatchManual);
    }
    None
}

/// The command of a commit with `parent_count` parents and annotation `note`.
pub fn resolve_commit(parent_count: usize, note: &Option<String>) -> (r: Option<VersionCmd>)
    ensures
        crate::command::option_cmd_view(r) == commit_command(
            parent_count as nat,
            match note {
                Some(s) => Some(s@),
                None => None,
            },
        ),
{
    match note {
        Some(m) => match_message_to_cmd(m.as_str()),
        None => if parent_count > 1 {
            Some(VersionCmd::IncPatchMerge)
        } else if parent_count == 1 {
            Some(VersionCmd::IncPatchCommit)
        } else {
            None
        },
    }
}

} // verus!
