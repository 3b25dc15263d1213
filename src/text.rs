//! Small facts and operations on text: prefixes and the last path separator.

use vstd::prelude::*;

verus! {

/// `p` is a prefix of `s`.
pub open spec fn has_prefix(s: Seq<char>, p: Seq<char>) -> bool {
    p.len() <= s.len() && s.subrange(0, p.len() as int) == p
}

/// The index of the last `/` in `s`, or -1 when there is none.
pub open spec fn last_slash(s: Seq<char>) -> int
    decreases s.len(),
{
    if s.len() == 0 {
        -1
    } else if s.last() == '/' {
        s.len() - 1
    } else {
        last_slash(s.drop_last())
    }
}

/// The part of a path up to and including its last `/` (empty when there is none).
pub open spec fn dir_of(s: Seq<char>) -> Seq<char> {
    s.subrange(0, last_slash(s) + 1)
}

/// `s` holds no `/`.
pub open spec fn no_slash(s: Seq<char>) -> bool {
    forall|i: int| 0 <= i < s.len() ==> s[i] != '/'
}

pub proof fn lemma_last_slash(s: Seq<char>)
    ensures
        -1 <= last_slash(s) < s.len(),
        last_slash(s) >= 0 ==> s[last_slash(s)] == '/',
        forall|j: int| last_slash(s) < j < s.len() ==> s[j] != '/',
    decreases s.len(),
{
    if s.len() > 0 && s.last() != '/' {
        let t = s.drop_last();
        lemma_last_slash(t);
        assert forall|j: int| last_slash(s) < j < s.len() implies s[j] != '/' by {
            if j < s.len() - 1 {
                assert(s[j] == t[j]);
            }
        }
    }
}

/// When `t` holds no `/`, the last `/` of `s + t` is that of `s`.
pub proof fn lemma_last_slash_append(s: Seq<char>, t: Seq<char>)
    requires
        no_slash(t),
    ensures
        last_slash(s + t) == last_slash(s),
        dir_of(s + t) == dir_of(s),
    decreases t.len(),
{
    if t.len() > 0 {
        let u = s + t;
        assert(u.last() == t.last());
        assert(u.drop_last() =~= s + t.drop_last());
        lemma_last_slash_append(s, t.drop_last());
    } else {
        assert(s + t =~= s);
    }
    let u = s + t;
    lemma_last_slash(s);
    assert(u.subrange(0, last_slash(s) + 1) =~= s.subrange(0, last_slash(s) + 1));
}

/// Tells whether `p` is a prefix of `s`.
pub fn starts_with(s: &str, p: &str) -> (r: bool)
    ensures
        r == has_prefix(s@, p@),
{
    let n = s.unicode_len();
    let m = p.unicode_len();
    if m > n {
        return false;
    }
    let mut i: usize = 0;
    while i < m
        invariant
            m == p@.len(),
            n == s@.len(),
            m <= n,
            i <= m,
            forall|j: int| 0 <= j < i ==> s@[j] == p@[j],
        decreases m - i,
    {
        if s.get_char(i) != p.get_char(i) {
            assert(s@.subrange(0, m as int)[i as int] != p@[i as int]);
            return false;
        }
        i = i + 1;
    }
    assert(s@.subrange(0, m as int) =~= p@);
    true
}

/// Tells whether `a` and `b` hold the same characters.
pub fn same_text(a: &str, b: &str) -> (r: bool)
    ensures
        r == (a@ == b@),
{
    if a.unicode_len() != b.unicode_len() {
        return false;
    }
    let r = starts_with(a, b);
    assert(a@.subrange(0, b@.len() as int) =~= a@);
    r
}

/// The index of the last `/` in `s`, if any.
pub fn find_last_slash(s: &str) -> (r: Option<usize>)
    ensures
        match r {
            Some(i) => i as int == last_slash(s@),
            None => last_slash(s@) == -1,
        },
        s@.len() <= usize::MAX,
{
    proof {
        lemma_last_slash(s@);
    }
    let n = s.unicode_len();
    let mut i: usize = n;
    while i > 0
        invariant
            n == s@.len(),
            i <= n,
            forall|j: int| i <= j < n ==> s@[j] != '/',
        decreases i,
    {
        let c = s.get_char(i - 1);
        if c == '/' {
            proof {
                assert(s@[i - 1] == '/');
                lemma_last_slash(s@);
                if last_slash(s@) > i - 1 {
                    assert(s@[last_slash(s@)] == '/');
                }
            }
            return Some(i - 1);
        }
        i = i - 1;
    }
    proof {
        if last_slash(s@) >= 0 {
            assert(s@[last_slash(s@)] == '/');
        }
    }
    None
}

/// The characters of `s` from index `from` on.
pub fn suffix_from(s: &str, from: usize) -> (r: String)
    requires
        from <= s@.len(),
    ensures
        r@ == s@.subrange(from as int, s@.len() as int),
{
    let n = s.unicode_len();
    String::from_str(s.substring_char(from, n))
}

/// The characters of `s` before index `to`.
pub fn prefix_to(s: &str, to: usize) -> (r: String)
    requires
        to <= s@.len(),
    ensures
        r@ == s@.subrange(0, to as int),
{
    String::from_str(s.substring_char(0, to))
}

} // verus!
