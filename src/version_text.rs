//! The textual form `MAJOR.MINOR.PATCH[-LABEL]` and its parse into a [`Version`].
use vstd::prelude::*;
use crate::version::{Identifier, IdentifierView, Version, VersionView};

verus! {

pub open spec fn is_digit(c: char) -> bool {
    '0' <= c && c <= '9'
}

/// A character allowed inside a label segment: ASCII letter, digit or `-`.
pub open spec fn is_label_char(c: char) -> bool {
    is_digit(c) || ('a' <= c && c <= 'z') || ('A' <= c && c <= 'Z') || c == '-'
}

/// The first index at or after `i` that does not hold a digit.
pub open spec fn digits_end(s: Seq<char>, i: int) -> int
    decreases s.len() - i,
{
    if 0 <= i < s.len() && is_digit(s[i]) {
        digits_end(s, i + 1)
    } else {
        i
    }
}

/// Non-empty dot-separated segments of label characters.
pub open spec fn is_label(t: Seq<char>) -> bool {
    &&& t.len() > 0
    &&& forall|i: int| 0 <= i < t.len() ==> is_label_char(#[trigger] t[i]) || t[i] == '.'
    &&& t[0] != '.'
    &&& t[t.len() - 1] != '.'
    &&& forall|i: int| 0 <= i < t.len() - 1 ==> !(#[trigger] t[i] == '.' && t[i + 1] == '.')
}

/// The end of the major digits.
pub open spec fn major_end(t: Seq<char>) -> int {
    digits_end(t, 0)
}

/// The end of the minor digits.
pub open spec fn minor_end(t: Seq<char>) -> int {
    digits_end(t, major_end(t) + 1)
}

/// The end of the patch digits, where the optional `-LABEL` starts.
pub open spec fn patch_end(t: Seq<char>) -> int {
    digits_end(t, minor_end(t) + 1)
}

/// `t` reads `DIGITS.DIGITS.DIGITS`, optionally followed by `-` and a label.
pub open spec fn is_version_text(t: Seq<char>) -> bool {
    let a = major_end(t);
    let b = minor_end(t);
    let c = patch_end(t);
    &&& 0 < a < t.len() && t[a] == '.'
    &&& a + 1 < b < t.len() && t[b] == '.'
    &&& b + 1 < c
    &&& c == t.len() || (t[c] == '-' && is_label(t.subrange(c + 1, t.len() as int)))
}

/// Decimal value of a digit sequence.
pub open spec fn decimal_value(ds: Seq<char>) -> nat
    decreases ds.len(),
{
    if ds.len() == 0 {
        0
    } else {
        decimal_value(ds.drop_last()) * 10 + ((ds.last() as u32) - ('0' as u32)) as nat
    }
}

/// Digits without a leading zero (a lone `0` allowed) whose value fits in `u64`.
pub open spec fn is_u64_number(ds: Seq<char>) -> bool {
    &&& ds.len() > 0
    &&& forall|i: int| 0 <= i < ds.len() ==> is_digit(#[trigger] ds[i])
    &&& (ds.len() == 1 || ds[0] != '0')
    &&& decimal_value(ds) <= u64::MAX
}

/// `t` cut at every `.`.
pub open spec fn split_dots(t: Seq<char>) -> Seq<Seq<char>>
    decreases t.len(),
{
    if t.len() == 0 {
        seq![Seq::empty()]
    } else {
        let r = split_dots(t.drop_last());
        if t.last() == '.' {
            r.push(Seq::empty())
        } else {
            r.update(r.len() - 1, r.last().push(t.last()))
        }
    }
}

/// A prerelease segment is numeric when it is a canonical `u64`, else alphanumeric.
pub open spec fn identifier_of(seg: Seq<char>) -> IdentifierView {
    if is_u64_number(seg) {
        IdentifierView::Numeric(decimal_value(seg) as u64)
    } else {
        IdentifierView::AlphaNumeric(seg)
    }
}

/// The version that a text of the grammar denotes, if its three numbers are
/// canonical and fit in `u64`.
pub open spec fn parse_version_text(t: Seq<char>) -> Option<VersionView> {
    let a = major_end(t);
    let b = minor_end(t);
    let c = patch_end(t);
    if is_version_text(t) && is_u64_number(t.subrange(0, a)) && is_u64_number(t.subrange(a + 1, b))
        && is_u64_number(t.subrange(b + 1, c)) {
        Some(
            VersionView {
                major: decimal_value(t.subrange(0, a)) as u64,
                minor: decimal_value(t.subrange(a + 1, b)) as u64,
                patch: decimal_value(t.subrange(b + 1, c)) as u64,
                pre: if c == t.len() {
                    Seq::empty()
                } else {
                    split_dots(t.subrange(c + 1, t.len() as int)).map_values(
                        |seg: Seq<char>| identifier_of(seg),
                    )
                },
            },
        )
    } else {
        None
    }
}

pub open spec fn option_version_view(v: Option<Version>) -> Option<VersionView> {
    match v {
        Some(x) => Some(x@),
        None => None,
    }
}

/// Relies on semver::Version::parse (semver-parser's `version::parse`): on a text
/// of the grammar it accepts exactly canonical `u64` numbers, and makes each
/// prerelease segment numeric exactly when it is a canonical `u64`.
#[verifier::external_body]
fn semver_parse(text: &str) -> (r: Option<Version>)
    requires
        is_version_text(text@),
    ensures
        option_version_view(r) == parse_version_text(text@),
{
    match semver::Version::parse(text) {
        Ok(v) => Some(Version {
            major: v.major,
            minor: v.minor,
            patch: v.patch,
            pre: v.pre.into_iter().map(|i| match i {
                semver::Identifier::Numeric(n) => Identifier::Numeric(n),
                semver::Identifier::AlphaNumeric(s) => Identifier::AlphaNumeric(s),
            }).collect(),
        }),
        Err(_) => None,
    }
}

/// The index at or after `i` where the run of digits in `t` ends.
pub fn scan_digits(t: &Vec<char>, i: usize) -> (r: usize)
    requires
        i <= t.len(),
    ensures
        r as int == digits_end(t@, i as int),
        i <= r <= t.len(),
{
    let mut j = i;
    while j < t.len() && '0' <= t[j] && t[j] <= '9'
        invariant
            i <= j <= t.len(),
            digits_end(t@, i as int) == digits_end(t@, j as int),
        decreases t.len() - j,
    {
        j = j + 1;
    }
    j
}

/// Whether `t[from..]` is a label.
pub fn is_label_from(t: &Vec<char>, from: usize) -> (r: bool)
    requires
        from <= t.len(),
    ensures
        r == is_label(t@.subrange(from as int, t.len() as int)),
{
    let ghost u = t@.subrange(from as int, t.len() as int);
    if from == t.len() || t[from] == '.' || t[t.len() - 1] == '.' {
        return false;
    }
    let mut i = from;
    while i < t.len()
        invariant
            from <= i <= t.len(),
            u == t@.subrange(from as int, t.len() as int),
            forall|k: int| 0 <= k < i - from ==> is_label_char(#[trigger] u[k]) || u[k] == '.',
            forall|k: int| 0 <= k < i - from && k < u.len() - 1 ==> !(#[trigger] u[k] == '.' && u[k + 1] == '.'),
        decreases t.len() - i,
    {
        let c = t[i];
        let ok = ('0' <= c && c <= '9') || ('a' <= c && c <= 'z') || ('A' <= c && c <= 'Z') || c == '-' || c == '.';
        if !ok {
            assert(!(is_label_char(u[i - from]) || u[i - from] == '.'));
            return false;
        }
        if c == '.' && i + 1 < t.len() && t[i + 1] == '.' {
            assert(u[i - from] == '.' && u[i - from + 1] == '.');
            return false;
        }
        i = i + 1;
    }
    true
}

/// Whether `t` is a text of the version grammar.
pub fn is_version_chars(t: &Vec<char>) -> (r: bool)
    ensures
        r == is_version_text(t@),
{
    let a = scan_digits(t, 0);
    if a == 0 || a >= t.len() || t[a] != '.' {
        return false;
    }
    let b = scan_digits(t, a + 1);
    if b == a + 1 || b >= t.len() || t[b] != '.' {
        return false;
    }
    let c = scan_digits(t, b + 1);
    if c == b + 1 {
        return false;
    }
    c == t.len() || (t[c] == '-' && is_label_from(t, c + 1))
}

/// The version that `text` denotes; `None` when it is outside the grammar or a
/// number is not a canonical `u64`.
pub fn parse_version(text: &str) -> (r: Option<Version>)
    ensures
        option_version_view(r) == parse_version_text(text@),
{
    let chars = crate::text::chars_of(text);
    if is_version_chars(&chars) {
        semver_parse(text)
    } else {
        None
    }
}

} // verus!
