//! Operations on text that the derivation of storage paths is built from.

use vstd::prelude::*;
use vstd::string::*;

verus! {

/// `s` without the slashes at its start and at its end.
pub open spec fn trim_slashes(s: Seq<char>) -> Seq<char>
    decreases s.len(),
{
    if s.len() > 0 && s[0] == '/' {
        trim_slashes(s.skip(1))
    } else if s.len() > 0 && s.last() == '/' {
        trim_slashes(s.drop_last())
    } else {
        s
    }
}

/// `s` without the slashes at its end.
pub open spec fn trim_end_slashes(s: Seq<char>) -> Seq<char>
    decreases s.len(),
{
    if s.len() > 0 && s.last() == '/' {
        trim_end_slashes(s.drop_last())
    } else {
        s
    }
}

/// Whether `c` is replaced in a file name.
pub open spec fn is_replaced(c: char) -> bool {
    c == '/' || c == '?' || c == '&' || c == '=' || c == '#'
}

/// `s` with an underscore in place of each replaced character.
pub open spec fn sanitized(s: Seq<char>) -> Seq<char> {
    s.map_values(|c: char| if is_replaced(c) { '_' } else { c })
}

/// The index of the last `c` in `s`, or -1 where `s` holds none.
pub open spec fn last_index_of(s: Seq<char>, c: char) -> int
    decreases s.len(),
{
    if s.len() == 0 {
        -1
    } else if s.last() == c {
        s.len() - 1
    } else {
        last_index_of(s.drop_last(), c)
    }
}

/// Whether `s` ends with `suffix`.
pub fn ends_with(s: &str, suffix: &str) -> (yes: bool)
    ensures
        yes == suffix@.is_suffix_of(s@),
{
    let n = s.unicode_len();
    let m = suffix.unicode_len();
    if m > n {
        return false;
    }
    let tail = s.substring_char(n - m, n);
    let mut i: usize = 0;
    while i < m
        invariant
            i <= m,
            m == suffix@.len(),
            n == s@.len(),
            m <= n,
            tail@ == s@.subrange(n - m, n as int),
            forall|j: int| 0 <= j < i ==> tail@[j] == suffix@[j],
        decreases m - i,
    {
        if tail.get_char(i) != suffix.get_char(i) {
            assert(tail@ != suffix@);
            return false;
        }
        i += 1;
    }
    assert(tail@ =~= suffix@);
    true
}

/// Whether `s` starts with `prefix`.
pub fn starts_with(s: &str, prefix: &str) -> (yes: bool)
    ensures
        yes == prefix@.is_prefix_of(s@),
{
    let n = s.unicode_len();
    let m = prefix.unicode_len();
    if m > n {
        return false;
    }
    let head = s.substring_char(0, m);
    let mut i: usize = 0;
    while i < m
        invariant
            i <= m,
            m == prefix@.len(),
            n == s@.len(),
            m <= n,
            head@ == s@.subrange(0, m as int),
            forall|j: int| 0 <= j < i ==> head@[j] == prefix@[j],
        decreases m - i,
    {
        if head.get_char(i) != prefix.get_char(i) {
            assert(head@ != prefix@);
            return false;
        }
        i += 1;
    }
    assert(head@ =~= prefix@);
    true
}

/// The position of the last `c` in `s`.
pub fn rfind(s: &str, c: char) -> (at: Option<usize>)
    ensures
        match at {
            Some(i) => i < s@.len() && s@[i as int] == c && i == last_index_of(s@, c),
            None => last_index_of(s@, c) == -1,
        },
{
    let mut i: usize = s.unicode_len();
    assert(s@.take(i as int) =~= s@);
    while i > 0
        invariant
            i <= s@.len(),
            last_index_of(s@, c) == last_index_of(s@.take(i as int), c),
        decreases i,
    {
        if s.get_char(i - 1) == c {
            return Some(i - 1);
        }
        assert(s@.take(i as int).drop_last() =~= s@.take(i - 1));
        i -= 1;
    }
    assert(s@.take(0).len() == 0);
    None
}

/// `s` without the slashes at its start and at its end.
pub fn trimmed(s: &str) -> (t: &str)
    ensures
        t@ == trim_slashes(s@),
{
    let n = s.unicode_len();
    let mut lo: usize = 0;
    assert(s@.skip(0) =~= s@);
    while lo < n && s.get_char(lo) == '/'
        invariant
            lo <= n,
            n == s@.len(),
            trim_slashes(s@) == trim_slashes(s@.skip(lo as int)),
        decreases n - lo,
    {
        assert(s@.skip(lo as int).skip(1) =~= s@.skip(lo + 1));
        lo += 1;
    }
    let mut hi: usize = n;
    assert(s@.skip(lo as int) =~= s@.subrange(lo as int, hi as int));
    while lo < hi && s.get_char(hi - 1) == '/'
        invariant
            lo <= hi <= n,
            n == s@.len(),
            lo < n ==> s@[lo as int] != '/',
            trim_slashes(s@) == trim_slashes(s@.subrange(lo as int, hi as int)),
        decreases hi,
    {
        assert(s@.subrange(lo as int, hi as int).drop_last() =~= s@.subrange(lo as int, hi - 1));
        hi -= 1;
    }
    s.substring_char(lo, hi)
}

/// `s` without the slashes at its end.
pub fn trimmed_end(s: &str) -> (t: &str)
    ensures
        t@ == trim_end_slashes(s@),
{
    let mut hi: usize = s.unicode_len();
    assert(s@.take(hi as int) =~= s@);
    while hi > 0 && s.get_char(hi - 1) == '/'
        invariant
            hi <= s@.len(),
            trim_end_slashes(s@) == trim_end_slashes(s@.take(hi as int)),
        decreases hi,
    {
        assert(s@.take(hi as int).drop_last() =~= s@.take(hi - 1));
        hi -= 1;
    }
    let t = s.substring_char(0, hi);
    assert(t@ =~= s@.take(hi as int));
    t
}

/// `s` with an underscore in place of each replaced character.
pub fn sanitize(s: &str) -> (out: String)
    ensures
        out@ == sanitized(s@),
{
    let n = s.unicode_len();
    let mut out = String::from_str("");
    proof {
        reveal_strlit("");
    }
    let mut i: usize = 0;
    while i < n
        invariant
            i <= n,
            n == s@.len(),
            out@ == sanitized(s@.take(i as int)),
        decreases n - i,
    {
        let c = s.get_char(i);
        if c == '/' || c == '?' || c == '&' || c == '=' || c == '#' {
            proof {
                reveal_strlit("_");
            }
            out.append("_");
        } else {
            out.append(s.substring_char(i, i + 1));
        }
        assert(out@ =~= sanitized(s@.take(i + 1)));
        i += 1;
    }
    assert(s@.take(n as int) =~= s@);
    out
}

} // verus!
