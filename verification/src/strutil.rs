use vstd::prelude::*;
use vstd::string::StrSliceExecFns;

verus! {

/// Character-wise equality of two string slices.
pub fn str_eq(a: &str, b: &str) -> (r: bool)
    ensures
        r == (a@ == b@),
{
    let n = a.unicode_len();
    let m = b.unicode_len();
    if n != m {
        return false;
    }
    let mut i: usize = 0;
    while i < n
        invariant
            n == a@.len(),
            m == b@.len(),
            n == m,
            i <= n,
            forall|j: int| 0 <= j < i ==> a@[j] == b@[j],
        decreases n - i,
    {
        if a.get_char(i) != b.get_char(i) {
            return false;
        }
        i = i + 1;
    }
    assert(a@ =~= b@);
    true
}

/// `b` is a prefix of `a`.
pub fn starts_with(a: &str, b: &str) -> (r: bool)
    ensures
        r == b@.is_prefix_of(a@),
{
    let n = a.unicode_len();
    let m = b.unicode_len();
    if m > n {
        return false;
    }
    let mut i: usize = 0;
    while i < m
        invariant
            n == a@.len(),
            m == b@.len(),
            m <= n,
            i <= m,
            forall|j: int| 0 <= j < i ==> a@[j] == b@[j],
        decreases m - i,
    {
        if a.get_char(i) != b.get_char(i) {
            return false;
        }
        i = i + 1;
    }
    true
}

/// `c` occurs in `s`.
pub fn contains_char(s: &str, c: char) -> (r: bool)
    ensures
        r == s@.contains(c),
{
    let n = s.unicode_len();
    let mut i: usize = 0;
    while i < n
        invariant
            n == s@.len(),
            i <= n,
            forall|j: int| 0 <= j < i ==> s@[j] != c,
        decreases n - i,
    {
        if s.get_char(i) == c {
            assert(s@[i as int] == c);
            return true;
        }
        i = i + 1;
    }
    false
}

/// `j` is the position of the last slash of `p`.
pub open spec fn is_last_slash(p: Seq<char>, j: int) -> bool {
    &&& 0 <= j < p.len()
    &&& p[j] == '/'
    &&& forall|k: int| j < k < p.len() ==> p[k] != '/'
}

/// The part of `p` after its last slash, or all of `p`.
pub open spec fn basename_spec(p: Seq<char>) -> Seq<char> {
    if exists|j: int| is_last_slash(p, j) {
        p.subrange((choose|j: int| is_last_slash(p, j)) + 1, p.len() as int)
    } else {
        p
    }
}

/// The part of `path` after its last slash, or all of it.
pub fn basename(path: &str) -> (r: &str)
    ensures
        r@ == basename_spec(path@),
{
    let n = path.unicode_len();
    let mut i: usize = n;
    while i > 0 && path.get_char(i - 1) != '/'
        invariant
            n == path@.len(),
            i <= n,
            forall|k: int| i <= k < n ==> path@[k] != '/',
        decreases i,
    {
        i = i - 1;
    }
    if i == 0 {
        proof {
            assert forall|j: int| !is_last_slash(path@, j) by {
                if is_last_slash(path@, j) {
                    assert(path@[j] != '/');
                }
            }
            assert(path@.subrange(0, n as int) =~= path@);
        }
        return path.substring_char(0, n);
    }
    proof {
        assert(is_last_slash(path@, i - 1));
        let c = choose|j: int| is_last_slash(path@, j);
        if c < i - 1 {
            assert(path@[i - 1] != '/');
        } else if c > i - 1 {
            assert(path@[c] != '/');
        }
    }
    path.substring_char(i, n)
}

} // verus!
