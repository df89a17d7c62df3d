//! Character-level helpers over annotation text.
use vstd::prelude::*;

verus! {

/// `k` occurs in `s` starting at index `i`.
pub open spec fn occurs_at(s: Seq<char>, k: Seq<char>, i: int) -> bool {
    0 <= i && i + k.len() <= s.len() && s.subrange(i, i + k.len()) == k
}

/// `k` occurs somewhere in `s`.
pub open spec fn contains_seq(s: Seq<char>, k: Seq<char>) -> bool {
    exists|i: int| occurs_at(s, k, i)
}

/// The characters of `s`, one element each.
pub fn chars_of(s: &str) -> (r: Vec<char>)
    ensures
        r@ == s@,
{
    let n = s.unicode_len();
    let mut r: Vec<char> = Vec::new();
    let mut i: usize = 0;
    while i < n
        invariant
            n == s@.len(),
            i <= n,
            r@ == s@.subrange(0, i as int),
        decreases n - i,
    {
        r.push(s.get_char(i));
        i = i + 1;
    }
    assert(r@ == s@);
    r
}

/// Whether `k` occurs in `s`.
pub fn contains_chars(s: &Vec<char>, k: &Vec<char>) -> (r: bool)
    ensures
        r == contains_seq(s@, k@),
{
    if k.len() == 0 {
        assert(s@.subrange(0, 0) =~= k@);
        assert(occurs_at(s@, k@, 0));
        return true;
    }
    if k.len() > s.len() {
        assert(forall|i: int| !occurs_at(s@, k@, i));
        return false;
    }
    let last: usize = s.len() - k.len();
    let mut i: usize = 0;
    while i <= last
        invariant
            last == s.len() - k.len(),
            i <= last + 1,
            forall|j: int| 0 <= j < i ==> !occurs_at(s@, k@, j),
        decreases last + 1 - i,
    {
        let mut j: usize = 0;
        let mut same = true;
        assert(s@.subrange(i as int, i as int) =~= k@.subrange(0, 0));
        while j < k.len() && same
            invariant
                i <= last,
                last == s.len() - k.len(),
                j <= k.len(),
                same == (s@.subrange(i as int, i + j) == k@.subrange(0, j as int)),
            decreases k.len() - j,
        {
            if s[i + j] != k[j] {
                same = false;
                assert(s@.subrange(i as int, i + j + 1)[j as int] != k@.subrange(0, j + 1)[j as int]);
            } else {
                assert(s@.subrange(i as int, i + j + 1) =~= s@.subrange(i as int, i + j).push(s@[i + j]));
                assert(k@.subrange(0, j + 1) =~= k@.subrange(0, j as int).push(k@[j as int]));
            }
            j = j + 1;
        }
        if same {
            assert(k@.subrange(0, k.len() as int) =~= k@);
            assert(occurs_at(s@, k@, i as int));
            return true;
        }
        proof {
            if occurs_at(s@, k@, i as int) {
                assert(s@.subrange(i as int, i + j) =~= s@.subrange(i as int, i + k.len()).subrange(0, j as int));
            }
        }
        i = i + 1;
    }
    proof {
        assert forall|j: int| !occurs_at(s@, k@, j) by {
            if 0 <= j && j + k@.len() <= s@.len() {
                assert(j < i);
            }
        }
    }
    false
}

/// Whether `a` and `b` hold the same characters.
pub fn same_chars(a: &Vec<char>, b: &Vec<char>) -> (r: bool)
    ensures
        r == (a@ == b@),
{
    if a.len() != b.len() {
        return false;
    }
    let mut i: usize = 0;
    while i < a.len()
        invariant
            a.len() == b.len(),
            i <= a.len(),
            forall|j: int| 0 <= j < i ==> a@[j] == b@[j],
        decreases a.len() - i,
    {
        if a[i] != b[i] {
            return false;
        }
        i = i + 1;
    }
    assert(a@ =~= b@);
    true
}

} // verus!
