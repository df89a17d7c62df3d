//! Semantic version values, the set-version text grammar, and parsing.
use vstd::prelude::*;

verus! {

/// One dot-separated prerelease identifier.
#[derive(Clone, Debug, PartialEq, Eq)]
pub enum Identifier {
    Numeric(u64),
    AlphaNumeric(String),
}

/// Mathematical value of an [`Identifier`].
pub enum IdentifierView {
    Numeric(u64),
    AlphaNumeric(Seq<char>),
}

impl View for Identifier {
    type V = IdentifierView;

    open spec fn view(&self) -> IdentifierView {
        match self {
            Identifier::Numeric(n) => IdentifierView::Numeric(*n),
            Identifier::AlphaNumeric(s) => IdentifierView::AlphaNumeric(s@),
        }
    }
}

/// `MAJOR.MINOR.PATCH` with an optional prerelease sequence.
#[derive(Clone, Debug, PartialEq, Eq)]
pub struct Version {
    pub major: u64,
    pub minor: u64,
    pub patch: u64,
    pub pre: Vec<Identifier>,
}

/// Mathematical value of a [`Version`].
pub struct VersionView {
    pub major: u64,
    pub minor: u64,
    pub patch: u64,
    pub pre: Seq<IdentifierView>,
}

/// The views of a sequence of identifiers.
pub open spec fn identifiers_view(ids: Seq<Identifier>) -> Seq<IdentifierView> {
    ids.map_values(|i: Identifier| i@)
}

impl View for Version {
    type V = VersionView;

    open spec fn view(&self) -> VersionView {
        VersionView {
            major: self.major,
            minor: self.minor,
            patch: self.patch,
            pre: identifiers_view(self.pre@),
        }
    }
}

/// `major.minor.patch` with no prerelease.
pub open spec fn plain_version(major: u64, minor: u64, patch: u64) -> VersionView {
    VersionView { major, minor, patch, pre: Seq::empty() }
}

/// Major incremented; minor and patch reset; prerelease cleared.
pub open spec fn bumped_major(v: VersionView) -> VersionView
    recommends
        v.major < u64::MAX,
{
    plain_version((v.major + 1) as u64, 0, 0)
}

/// Minor incremented; patch reset; prerelease cleared.
pub open spec fn bumped_minor(v: VersionView) -> VersionView
    recommends
        v.minor < u64::MAX,
{
    plain_version(v.major, (v.minor + 1) as u64, 0)
}

/// Patch incremented; prerelease cleared.
pub open spec fn bumped_patch(v: VersionView) -> VersionView
    recommends
        v.patch < u64::MAX,
{
    plain_version(v.major, v.minor, (v.patch + 1) as u64)
}

/// The same version with its prerelease replaced by `pre`.
pub open spec fn with_pre(v: VersionView, pre: Seq<IdentifierView>) -> VersionView {
    VersionView { pre, ..v }
}

impl Version {
    /// `major.minor.patch` with no prerelease.
    pub fn new(major: u64, minor: u64, patch: u64) -> (r: Version)
        ensures
            r@ == plain_version(major, minor, patch),
    {
        let r = Version { major, minor, patch, pre: Vec::new() };
        assert(r@.pre =~= Seq::<IdentifierView>::empty());
        r
    }

    pub fn increment_major(&mut self)
        requires
            old(self).major < u64::MAX,
        ensures
            final(self)@ == bumped_major(old(self)@),
    {
        self.major = self.major + 1;
        self.minor = 0;
        self.patch = 0;
        self.pre = Vec::new();
        assert(self@.pre =~= Seq::<IdentifierView>::empty());
    }

    pub fn increment_minor(&mut self)
        requires
            old(self).minor < u64::MAX,
        ensures
            final(self)@ == bumped_minor(old(self)@),
    {
        self.minor = self.minor + 1;
        self.patch = 0;
        self.pre = Vec::new();
        assert(self@.pre =~= Seq::<IdentifierView>::empty());
    }

    pub fn increment_patch(&mut self)
        requires
            old(self).patch < u64::MAX,
        ensures
            final(self)@ == bumped_patch(old(self)@),
    {
        self.patch = self.patch + 1;
        self.pre = Vec::new();
        assert(self@.pre =~= Seq::<IdentifierView>::empty());
    }
}

} // verus!
