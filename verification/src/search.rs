//! Text-search primitives: first-occurrence substring search over character
//! sequences, with exec implementations proved against the spec-level
//! definitions below.

use vstd::prelude::*;

verus! {

/// Pattern `p` occurs in `t` starting exactly at index `i`.
pub open spec fn match_at(t: Seq<char>, p: Seq<char>, i: int) -> bool {
    0 <= i && i + p.len() <= t.len() && t.subrange(i, i + p.len() as int) == p
}

/// Index of the first occurrence of `p` in `t` at or after index `from`,
/// `None` when there is none.
pub open spec fn find_from(t: Seq<char>, p: Seq<char>, from: int) -> Option<int>
    decreases t.len() - from,
{
    if from < 0 {
        None
    } else if p.len() == 0 {
        if from <= t.len() {
            Some(from)
        } else {
            None
        }
    } else if from + p.len() > t.len() {
        None
    } else if t.subrange(from, from + p.len() as int) == p {
        Some(from)
    } else {
        find_from(t, p, from + 1)
    }
}

/// `p` occurs somewhere in `t`.
pub open spec fn contains_seq(t: Seq<char>, p: Seq<char>) -> bool {
    find_from(t, p, 0) is Some
}

/// `t` begins with `p`.
pub open spec fn starts_with_seq(t: Seq<char>, p: Seq<char>) -> bool {
    p.len() <= t.len() && t.subrange(0, p.len() as int) == p
}

/// `t` ends with `p`.
pub open spec fn ends_with_seq(t: Seq<char>, p: Seq<char>) -> bool {
    p.len() <= t.len() && t.subrange(t.len() - p.len(), t.len() as int) == p
}

/// A successful search result is a match, and it is the first one at or
/// after `from`.
pub proof fn lemma_find_from_some(t: Seq<char>, p: Seq<char>, from: int, i: int)
    requires
        0 <= from,
        find_from(t, p, from) == Some(i),
    ensures
        from <= i,
        match_at(t, p, i),
        forall|j: int| from <= j < i ==> !match_at(t, p, j),
    decreases t.len() - from,
{
    if p.len() == 0 {
        assert(t.subrange(i, i) =~= p);
    } else if from + p.len() > t.len() {
        assert(false);
    } else if t.subrange(from, from + p.len() as int) == p {
        assert(i == from);
    } else {
        lemma_find_from_some(t, p, from + 1, i);
        assert(!match_at(t, p, from));
    }
}

/// A failed search means there is no match anywhere at or after `from`.
pub proof fn lemma_find_from_none(t: Seq<char>, p: Seq<char>, from: int, j: int)
    requires
        0 <= from,
        find_from(t, p, from) is None,
        from <= j,
    ensures
        !match_at(t, p, j),
    decreases t.len() - from,
{
    if p.len() == 0 {
        assert(from > t.len());
    } else if from + p.len() > t.len() {
        assert(!match_at(t, p, j));
    } else if t.subrange(from, from + p.len() as int) == p {
        assert(false);
    } else {
        if j > from {
            lemma_find_from_none(t, p, from + 1, j);
        }
    }
}

/// If a match exists at or after `from`, the search succeeds and returns
/// an index no later than that match.
pub proof fn lemma_find_from_complete(t: Seq<char>, p: Seq<char>, from: int, j: int)
    requires
        0 <= from <= j,
        match_at(t, p, j),
    ensures
        find_from(t, p, from) is Some,
        find_from(t, p, from)->0 <= j,
    decreases t.len() - from,
{
    if p.len() == 0 {
    } else if from + p.len() > t.len() {
        assert(false);
    } else if t.subrange(from, from + p.len() as int) == p {
    } else {
        assert(j != from);
        lemma_find_from_complete(t, p, from + 1, j);
    }
}

/// Pattern comparison at one position.
fn match_at_exec(t: &str, p: &str, i: usize) -> (r: bool)
    requires
        i + p@.len() <= t@.len(),
    ensures
        r == (t@.subrange(i as int, i as int + p@.len() as int) == p@),
{
    let tlen: usize = t.unicode_len();
    let plen: usize = p.unicode_len();
    let mut j: usize = 0;
    while j < plen
        invariant
            0 <= j <= plen,
            plen == p@.len(),
            tlen == t@.len(),
            i + plen <= t@.len(),
            forall|k: int| 0 <= k < j ==> t@[i + k] == p@[k],
        decreases plen - j,
    {
        if t.get_char(i + j) != p.get_char(j) {
            assert(t@.subrange(i as int, i as int + p@.len() as int)[j as int] == t@[i + j]);
            return false;
        }
        j = j + 1;
    }
    assert(t@.subrange(i as int, i as int + p@.len() as int) =~= p@);
    true
}

/// First occurrence of `p` in `t` at or after character index `from`.
pub fn find_at(t: &str, p: &str, from: usize) -> (r: Option<usize>)
    ensures
        find_from(t@, p@, from as int) == (match r {
            Some(i) => Some(i as int),
            None => None,
        }),
{
    let tlen: usize = t.unicode_len();
    let plen: usize = p.unicode_len();
    if plen == 0 {
        if from <= tlen {
            return Some(from);
        } else {
            return None;
        }
    }
    if plen > tlen || from > tlen - plen {
        return None;
    }
    let mut i: usize = from;
    while i <= tlen - plen
        invariant
            from <= i,
            plen >= 1,
            plen <= tlen,
            tlen == t@.len(),
            plen == p@.len(),
            find_from(t@, p@, from as int) == find_from(t@, p@, i as int),
        decreases tlen - i,
    {
        if match_at_exec(t, p, i) {
            return Some(i);
        }
        i = i + 1;
    }
    None
}

/// Whether `p` occurs anywhere in `t`.
pub fn contains_str(t: &str, p: &str) -> (r: bool)
    ensures
        r == contains_seq(t@, p@),
{
    find_at(t, p, 0).is_some()
}

/// Whether `t` begins with `p`.
pub fn starts_with_str(t: &str, p: &str) -> (r: bool)
    ensures
        r == starts_with_seq(t@, p@),
{
    let tlen: usize = t.unicode_len();
    let plen: usize = p.unicode_len();
    if plen > tlen {
        return false;
    }
    match_at_exec(t, p, 0)
}

/// Whether `t` ends with `p`.
pub fn ends_with_str(t: &str, p: &str) -> (r: bool)
    ensures
        r == ends_with_seq(t@, p@),
{
    let tlen: usize = t.unicode_len();
    let plen: usize = p.unicode_len();
    if plen > tlen {
        return false;
    }
    match_at_exec(t, p, tlen - plen)
}

/// Whether two strings hold the same characters.
pub fn str_eq(a: &str, b: &str) -> (r: bool)
    ensures
        r == (a@ == b@),
{
    let alen: usize = a.unicode_len();
    let blen: usize = b.unicode_len();
    if alen != blen {
        return false;
    }
    let r = match_at_exec(a, b, 0);
    proof {
        assert(a@.subrange(0, a@.len() as int) =~= a@);
    }
    r
}

/// The characters of `t` before `p1`, then `v`, then the characters of `t`
/// from `p2` on: the result of replacing the span `[p1, p2)` with `v`.
pub fn splice(t: &str, p1: usize, p2: usize, v: &str) -> (r: String)
    requires
        p1 <= p2 <= t@.len(),
    ensures
        r@ == t@.subrange(0, p1 as int) + v@ + t@.subrange(p2 as int, t@.len() as int),
{
    let tlen: usize = t.unicode_len();
    let pre = t.substring_char(0, p1);
    let post = t.substring_char(p2, tlen);
    let mut r = String::from_str(pre);
    r.append(v);
    r.append(post);
    r
}

} // verus!
