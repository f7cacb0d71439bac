//! The content buffer and the search-based patch operations on it: direct
//! value replacement, context-anchored replacement, and anchored insertion.
//!
//! Every operation is specified against the first-occurrence search
//! semantics of [`crate::search::find_from`]: a replacement edits the span
//! between the separator after the first occurrence of the setting name and
//! the next `;`, and an insertion splices new text directly before the
//! second anchor's match.

use vstd::prelude::*;
use crate::Error;
use crate::search::{
    contains_seq,
    contains_str,
    find_from,
    find_at,
    match_at,
    splice,
    starts_with_seq,
    starts_with_str,
    str_eq,
    lemma_find_from_complete,
    lemma_find_from_some,
};

verus! {

/// Index of the first `-` in `s`, or `s.len()` when there is none.
pub open spec fn first_dash(s: Seq<char>) -> int {
    match find_from(s, seq!['-'], 0) {
        None => s.len() as int,
        Some(i) => i,
    }
}

/// The hyphen-separated segments of a setting name, in order.
pub open spec fn split_dash(s: Seq<char>) -> Seq<Seq<char>>
    decreases s.len(),
{
    let p = first_dash(s);
    if 0 <= p && p < s.len() {
        seq![s.subrange(0, p)] + split_dash(s.subrange(p + 1, s.len() as int))
    } else {
        seq![s]
    }
}

/// The segments joined with the single separator `j` between them.
pub open spec fn join_with(parts: Seq<Seq<char>>, j: Seq<char>) -> Seq<char>
    decreases parts.len(),
{
    if parts.len() == 0 {
        Seq::empty()
    } else if parts.len() == 1 {
        parts[0]
    } else {
        join_with(parts.drop_last(), j) + j + parts.last()
    }
}

/// A candidate scope anchor: the first `k` segments rendered as a
/// brace-opening selector, with or without a leading `.` and joined by the
/// separator `joint`.
pub open spec fn fore_of(segs: Seq<Seq<char>>, k: int, dot: bool, joint: Seq<char>) -> Seq<char> {
    seq!['\n'] + (if dot {
        seq!['.']
    } else {
        Seq::empty()
    }) + join_with(segs.take(k), joint) + seq![' ', '{']
}

/// The leaf argument left after a `k`-segment scope prefix.
pub open spec fn arg_of(segs: Seq<Seq<char>>, k: int) -> Seq<char> {
    join_with(segs.skip(k), seq!['-'])
}

/// The four syntactic variants tried for a `k`-segment scope prefix, in
/// order: leading dot with space join, leading dot with hyphen join, bare
/// with space join, bare with hyphen join.
pub open spec fn cands_at(segs: Seq<Seq<char>>, k: int) -> Seq<(Seq<char>, Seq<char>)> {
    seq![
        (fore_of(segs, k, true, seq![' ']), arg_of(segs, k)),
        (fore_of(segs, k, true, seq!['-']), arg_of(segs, k)),
        (fore_of(segs, k, false, seq![' ']), arg_of(segs, k)),
        (fore_of(segs, k, false, seq!['-']), arg_of(segs, k)),
    ]
}

/// All candidates from a `k`-segment prefix down to a single-segment one.
pub open spec fn cands_down(segs: Seq<Seq<char>>, k: int) -> Seq<(Seq<char>, Seq<char>)>
    decreases k,
{
    if k <= 0 {
        Seq::empty()
    } else {
        cands_at(segs, k) + cands_down(segs, k - 1)
    }
}

/// The candidate anchors and arguments a hyphen-joined setting name
/// decomposes into, in the order they are tried: longest scope prefix
/// first, its four syntactic variants each.
pub open spec fn candidates(item: Seq<char>) -> Seq<(Seq<char>, Seq<char>)> {
    let segs = split_dash(item);
    cands_down(segs, segs.len() - 1)
}

/// The content after trying each candidate in order until one
/// context-anchored replacement succeeds; unchanged when all fail.
pub open spec fn try_cands(
    t: Seq<char>,
    cands: Seq<(Seq<char>, Seq<char>)>,
    v: Seq<char>,
) -> Seq<char>
    decreases cands.len(),
{
    if cands.len() == 0 {
        t
    } else {
        match fore_replace_spec(t, cands[0].0, cands[0].1, v) {
            Some(s) => s,
            None => try_cands(t, cands.drop_first(), v),
        }
    }
}

/// The result of the scope-decomposing edit of a hyphen-joined setting.
pub open spec fn fore_arg_spec(t: Seq<char>, item: Seq<char>, v: Seq<char>) -> Seq<char> {
    try_cands(t, candidates(item), v)
}

/// When every scope-prefix and syntax-variant search fails, the edit is
/// dropped: the content is left unchanged.
pub proof fn lemma_try_cands_all_fail(
    t: Seq<char>,
    cands: Seq<(Seq<char>, Seq<char>)>,
    v: Seq<char>,
)
    requires
        forall|i: int| 0 <= i < cands.len() ==> fore_replace_spec(t, (#[trigger] cands[i]).0,
            cands[i].1, v) is None,
    ensures
        try_cands(t, cands, v) == t,
    decreases cands.len(),
{
    if cands.len() > 0 {
        lemma_try_cands_all_fail(t, cands.drop_first(), v);
    }
}

/// `fore_arg` exhaustion as a law over the whole candidate list: an item
/// whose every candidate fails leaves the content exactly as it was.
pub proof fn lemma_fore_arg_exhausted(t: Seq<char>, item: Seq<char>, v: Seq<char>)
    requires
        forall|i: int| 0 <= i < candidates(item).len() ==> fore_replace_spec(t, (#[trigger]
            candidates(item)[i]).0, candidates(item)[i].1, v) is None,
    ensures
        fore_arg_spec(t, item, v) == t,
{
    lemma_try_cands_all_fail(t, candidates(item), v);
}

/// A mutable text buffer holding one target's content.
#[derive(Debug)]
pub struct Content(String);

impl View for Content {
    type V = Seq<char>;

    closed spec fn view(&self) -> Seq<char> {
        self.0@
    }
}

impl Clone for Content {
    fn clone(&self) -> (r: Content)
        ensures
            r@ == self@,
    {
        Content(self.0.clone())
    }
}

impl Default for Content {
    /// An empty buffer.
    fn default() -> (r: Content)
        ensures
            r@ == Seq::<char>::empty(),
    {
        Content(String::new())
    }
}

impl PartialEq for Content {
    fn eq(&self, other: &Content) -> (r: bool) {
        self.0 == other.0
    }
}

impl vstd::std_specs::cmp::PartialEqSpecImpl for Content {
    open spec fn obeys_eq_spec() -> bool {
        true
    }

    open spec fn eq_spec(&self, other: &Content) -> bool {
        self@ == other@
    }
}

/// The editable span belonging to the first occurrence of `item` in `t`:
/// it starts two characters past the occurrence (skipping the `: `-shaped
/// separator) and runs to the next `;`.  `None` when `item` is absent or no
/// terminating `;` follows.
pub open spec fn span_spec(t: Seq<char>, item: Seq<char>) -> Option<(int, int)> {
    match find_from(t, item, 0) {
        None => None,
        Some(i) => {
            let p1 = i + item.len() + 2;
            if p1 > t.len() {
                None
            } else {
                match find_from(t, ";"@, p1) {
                    None => None,
                    Some(p2) => Some((p1, p2)),
                }
            }
        },
    }
}

/// The result of a direct replacement: the editable span of `item` is
/// replaced with `v`; `None` when the span cannot be located.
pub open spec fn replace_spec(t: Seq<char>, item: Seq<char>, v: Seq<char>) -> Option<Seq<char>> {
    match span_spec(t, item) {
        None => None,
        Some(p) => Some(t.subrange(0, p.0) + v + t.subrange(p.1, t.len() as int)),
    }
}

/// The result of a context-anchored replacement: `item` is searched only
/// strictly after the first occurrence of the anchor `fore`, and its span
/// there is replaced with `v`.  `None` when anchor, item or terminator is
/// missing.
pub open spec fn fore_replace_spec(
    t: Seq<char>,
    fore: Seq<char>,
    item: Seq<char>,
    v: Seq<char>,
) -> Option<Seq<char>> {
    match find_from(t, fore, 0) {
        None => None,
        Some(pf) => match find_from(t, item, pf + 1) {
            None => None,
            Some(i) => {
                let p1 = i + item.len() + 2;
                if p1 > t.len() {
                    None
                } else {
                    match find_from(t, ";"@, p1) {
                        None => None,
                        Some(p2) => Some(t.subrange(0, p1) + v + t.subrange(p2, t.len() as int)),
                    }
                }
            },
        },
    }
}

/// The result of an anchored insertion: `ins` is spliced directly before
/// the first occurrence of `f2` strictly after the first occurrence of
/// `f1`.  `None` when either anchor is missing.
pub open spec fn insert_spec(
    t: Seq<char>,
    ins: Seq<char>,
    f1: Seq<char>,
    f2: Seq<char>,
) -> Option<Seq<char>> {
    match find_from(t, f1, 0) {
        None => None,
        Some(p1) => match find_from(t, f2, p1 + 1) {
            None => None,
            Some(p2) => Some(t.subrange(0, p2) + ins + t.subrange(p2, t.len() as int)),
        },
    }
}

impl Content {
    /// Wrap baseline text as a content buffer.
    pub fn from(s: String) -> (r: Content)
        ensures
            r@ == s@,
    {
        Content(s)
    }

    /// Read access to the buffer.
    pub fn get(&self) -> (r: &str)
        ensures
            r@ == self@,
    {
        self.0.as_str()
    }

    /// Write access to the buffer: the buffer afterwards holds whatever
    /// the caller leaves behind the returned reference.
    pub fn get_mut(&mut self) -> (r: &mut String)
        ensures
            (*r)@ == old(self)@,
            final(self)@ == (*final(r))@,
    {
        &mut self.0
    }

    /// Locate the editable span of `item`: the range between the `: `
    /// separator after its first occurrence and the next `;`.
    pub fn find(&self, item: &str) -> (r: Result<(usize, usize), Error>)
        ensures
            (match r {
                Ok(p) => span_spec(self@, item@) == Some((p.0 as int, p.1 as int)) && p.0 <= p.1
                    <= self@.len(),
                Err(e) => span_spec(self@, item@) is None && e == Error::StrNotFound,
            }),
    {
        let text = self.0.as_str();
        let tlen: usize = text.unicode_len();
        let ilen: usize = item.unicode_len();
        match find_at(text, item, 0) {
            None => Err(Error::StrNotFound),
            Some(i) => {
                proof {
                    lemma_find_from_some(self@, item@, 0, i as int);
                }
                if tlen - (i + ilen) < 2 {
                    Err(Error::StrNotFound)
                } else {
                    let p1 = i + ilen + 2;
                    match find_at(text, ";", p1) {
                        None => Err(Error::StrNotFound),
                        Some(p2) => {
                            proof {
                                lemma_find_from_some(self@, ";"@, p1 as int, p2 as int);
                            }
                            Ok((p1, p2))
                        },
                    }
                }
            },
        }
    }

    /// Directly replace the value of `item` with `value`.
    ///
    /// On failure the buffer is unchanged and `StrNotFound` is reported.
    pub fn replace(&mut self, item: &str, value: &str) -> (r: Result<(), Error>)
        ensures
            (match replace_spec(old(self)@, item@, value@) {
                Some(s) => r is Ok && final(self)@ == s,
                None => r == Err::<(), Error>(Error::StrNotFound) && final(self)@ == old(self)@,
            }),
    {
        match self.find(item) {
            Err(e) => Err(e),
            Ok(p) => {
                let s = splice(self.0.as_str(), p.0, p.1, value);
                self.0 = s;
                Ok(())
            },
        }
    }

    /// Replace the value of `item` with `value`, searching `item` only
    /// strictly after the context anchor `fore`.
    ///
    /// On failure the buffer is unchanged and `StrNotFound` is reported.
    pub fn fore_replace(&mut self, fore: &str, item: &str, value: &str) -> (r: Result<(), Error>)
        ensures
            (match fore_replace_spec(old(self)@, fore@, item@, value@) {
                Some(s) => r is Ok && final(self)@ == s,
                None => r == Err::<(), Error>(Error::StrNotFound) && final(self)@ == old(self)@,
            }),
    {
        let text = self.0.as_str();
        let tlen: usize = text.unicode_len();
        let ilen: usize = item.unicode_len();
        match find_at(text, fore, 0) {
            None => Err(Error::StrNotFound),
            Some(pf) => {
                proof {
                    lemma_find_from_some(self@, fore@, 0, pf as int);
                }
                if pf == tlen {
                    proof {
                        assert(find_from(self@, item@, pf + 1) is None);
                    }
                    Err(Error::StrNotFound)
                } else {
                    match find_at(text, item, pf + 1) {
                        None => Err(Error::StrNotFound),
                        Some(i) => {
                            proof {
                                lemma_find_from_some(self@, item@, pf as int + 1, i as int);
                            }
                            if tlen - (i + ilen) < 2 {
                                Err(Error::StrNotFound)
                            } else {
                                let p1 = i + ilen + 2;
                                match find_at(text, ";", p1) {
                                    None => Err(Error::StrNotFound),
                                    Some(p2) => {
                                        proof {
                                            lemma_find_from_some(self@, ";"@, p1 as int,
                                                p2 as int);
                                        }
                                        let s = splice(self.0.as_str(), p1, p2, value);
                                        self.0 = s;
                                        Ok(())
                                    },
                                }
                            }
                        },
                    }
                }
            },
        }
    }

    /// Splice `insert` into the buffer directly before the first occurrence
    /// of `find2` strictly after the first occurrence of `find1`.
    ///
    /// On failure the buffer is unchanged and `StrNotFound` is reported.
    pub fn insert(&mut self, insert: &str, find1: &str, find2: &str) -> (r: Result<(), Error>)
        ensures
            (match insert_spec(old(self)@, insert@, find1@, find2@) {
                Some(s) => r is Ok && final(self)@ == s,
                None => r == Err::<(), Error>(Error::StrNotFound) && final(self)@ == old(self)@,
            }),
    {
        let text = self.0.as_str();
        let tlen: usize = text.unicode_len();
        match find_at(text, find1, 0) {
            None => Err(Error::StrNotFound),
            Some(p1) => {
                proof {
                    lemma_find_from_some(self@, find1@, 0, p1 as int);
                }
                if p1 == tlen {
                    proof {
                        assert(find_from(self@, find2@, p1 + 1) is None);
                    }
                    Err(Error::StrNotFound)
                } else {
                    match find_at(text, find2, p1 + 1) {
                        None => Err(Error::StrNotFound),
                        Some(p2) => {
                            proof {
                                lemma_find_from_some(self@, find2@, p1 as int + 1, p2 as int);
                            }
                            let s = splice(self.0.as_str(), p2, p2, insert);
                            self.0 = s;
                            Ok(())
                        },
                    }
                }
            },
        }
    }
    /// Decompose a `scope-leaf` setting name and try each candidate scope
    /// anchor in order, longest prefix first, until one context-anchored
    /// replacement succeeds; when none does, the edit is dropped silently.
    pub fn fore_arg(&mut self, item: &str, value: &str)
        ensures
            final(self)@ == fore_arg_spec(old(self)@, item@, value@),
    {
        let segs = split_dash_exec(item);
        let n: usize = segs.len();
        if n <= 1 {
            proof {
                assert(candidates(item@) =~= Seq::<(Seq<char>, Seq<char>)>::empty());
            }
            return ;
        }
        let cands = build_candidates(&segs);
        let ghost t0 = self@;
        let ghost cs = candidates(item@);
        proof {
            assert(cs.skip(0) =~= cs);
        }
        let mut idx: usize = 0;
        while idx < cands.len()
            invariant
                0 <= idx <= cands.len(),
                cands.deep_view() == cs,
                t0 == old(self)@,
                cs == candidates(item@),
                self@ == t0,
                try_cands(t0, cs, value@) == try_cands(t0, cs.skip(idx as int), value@),
            decreases cands.len() - idx,
        {
            proof {
                assert(cs.skip(idx as int)[0] == cands.deep_view()[idx as int]);
            }
            let r = self.fore_replace(cands[idx].0.as_str(), cands[idx].1.as_str(), value);
            if r.is_ok() {
                proof {
                    let c = cs.skip(idx as int);
                    assert(c[0] == (cands@[idx as int].0@, cands@[idx as int].1@));
                    assert(fore_replace_spec(t0, c[0].0, c[0].1, value@) is Some);
                    assert(self@ == try_cands(t0, c, value@));
                }
                return ;
            }
            proof {
                assert(cs.skip(idx as int).drop_first() =~= cs.skip(idx as int + 1));
            }
            idx = idx + 1;
        }
        proof {
            assert(cs.skip(cands.deep_view().len() as int) =~= Seq::<(Seq<char>,
                Seq<char>)>::empty());
        }
    }
}

/// The value contains no `;`, so a replacement it is written by still ends
/// at the same terminator when reapplied.
pub open spec fn semi_free(v: Seq<char>) -> bool {
    forall|i: int| 0 <= i < v.len() ==> v[i] != ';'
}

/// Idempotence of direct replacement: once a value free of `;` has been
/// written into an item's span, replacing the same item with the same
/// value again succeeds and leaves the content byte-identical.
pub proof fn lemma_replace_idempotent(t: Seq<char>, item: Seq<char>, v: Seq<char>)
    requires
        replace_spec(t, item, v) is Some,
        semi_free(v),
    ensures
        replace_spec(replace_spec(t, item, v)->0, item, v) == replace_spec(t, item, v),
{
    reveal_strlit(";");
    let i0 = find_from(t, item, 0)->0;
    lemma_find_from_some(t, item, 0, i0);
    let l = item.len() as int;
    let p1 = i0 + l + 2;
    let p2 = find_from(t, ";"@, p1)->0;
    lemma_find_from_some(t, ";"@, p1, p2);
    let s = t.subrange(0, p1) + v + t.subrange(p2, t.len() as int);
    assert(replace_spec(t, item, v) == Some(s));
    let q = p1 + v.len() as int;
    assert(s.len() == q + t.len() - p2);
    assert forall|j: int| 0 <= j < p1 implies s[j] == t[j] by {
        assert(s[j] == (t.subrange(0, p1) + v)[j]);
        assert(s[j] == t.subrange(0, p1)[j]);
    }
    assert forall|j: int| q <= j < s.len() implies s[j] == t[p2 + (j - q)] by {
        assert(s[j] == t.subrange(p2, t.len() as int)[j - q]);
    }
    // The first occurrence of the item is untouched: the characters before
    // the edited span are the same, and no new occurrence can start
    // earlier, since one reaching into the span would have to start inside
    // the separator.
    assert(s.subrange(i0, i0 + l) =~= t.subrange(i0, i0 + l));
    assert(match_at(s, item, i0));
    assert forall|j: int| 0 <= j < i0 implies !match_at(s, item, j) by {
        if match_at(s, item, j) {
            assert(s.subrange(j, j + l) =~= t.subrange(j, j + l));
            assert(match_at(t, item, j));
        }
    }
    lemma_find_from_complete(s, item, 0, i0);
    let r0 = find_from(s, item, 0)->0;
    lemma_find_from_some(s, item, 0, r0);
    assert(r0 == i0);
    // The next terminator after the span is the one the replacement kept,
    // because the value itself holds none.
    assert(";"@ =~= seq![';']);
    assert(t.subrange(p2, p2 + 1)[0] == t[p2]);
    assert(t[p2] == ';');
    assert(s[q] == t[p2]);
    assert(s.subrange(q, q + 1) =~= ";"@);
    assert(match_at(s, ";"@, q));
    assert forall|j: int| p1 <= j < q implies !match_at(s, ";"@, j) by {
        if match_at(s, ";"@, j) {
            assert(s.subrange(j, j + 1)[0] == s[j]);
            assert(s[j] == ';');
            assert(s[j] == (t.subrange(0, p1) + v)[j]);
            assert(s[j] == v[j - p1]);
        }
    }
    lemma_find_from_complete(s, ";"@, p1, q);
    let r1 = find_from(s, ";"@, p1)->0;
    lemma_find_from_some(s, ";"@, p1, r1);
    assert(r1 == q);
    // Replacing the same span with the same value reproduces the content.
    let s2 = s.subrange(0, p1) + v + s.subrange(q, s.len() as int);
    assert(s.subrange(0, p1) =~= t.subrange(0, p1));
    assert(s.subrange(q, s.len() as int) =~= t.subrange(p2, t.len() as int));
    assert(s2 == s);
    assert(replace_spec(s, item, v) == Some(s2));
}

/// Idempotence of context-anchored replacement: once a value free of `;`
/// has been written, replacing the same item behind the same anchor with
/// the same value again succeeds and leaves the content byte-identical.
/// The anchor's own occurrence must end before the edited span begins, as
/// it does for every selector anchor this engine builds.
pub proof fn lemma_fore_replace_idempotent(
    t: Seq<char>,
    fore: Seq<char>,
    item: Seq<char>,
    v: Seq<char>,
)
    requires
        fore_replace_spec(t, fore, item, v) is Some,
        semi_free(v),
        find_from(t, fore, 0)->0 + fore.len() <= find_from(
            t,
            item,
            find_from(t, fore, 0)->0 + 1,
        )->0 + item.len() + 2,
    ensures
        fore_replace_spec(fore_replace_spec(t, fore, item, v)->0, fore, item, v)
            == fore_replace_spec(t, fore, item, v),
{
    reveal_strlit(";");
    let pf = find_from(t, fore, 0)->0;
    lemma_find_from_some(t, fore, 0, pf);
    let i0 = find_from(t, item, pf + 1)->0;
    lemma_find_from_some(t, item, pf + 1, i0);
    let fl = fore.len() as int;
    let l = item.len() as int;
    let p1 = i0 + l + 2;
    let p2 = find_from(t, ";"@, p1)->0;
    lemma_find_from_some(t, ";"@, p1, p2);
    let s = t.subrange(0, p1) + v + t.subrange(p2, t.len() as int);
    assert(fore_replace_spec(t, fore, item, v) == Some(s));
    let q = p1 + v.len() as int;
    assert(s.len() == q + t.len() - p2);
    assert forall|j: int| 0 <= j < p1 implies s[j] == t[j] by {
        assert(s[j] == (t.subrange(0, p1) + v)[j]);
        assert(s[j] == t.subrange(0, p1)[j]);
    }
    // The anchor's occurrence lies wholly before the edited span, so it is
    // kept, and no occurrence can appear earlier: one reaching into the
    // span would start after it.
    assert(s.subrange(pf, pf + fl) =~= t.subrange(pf, pf + fl));
    assert(match_at(s, fore, pf));
    assert forall|j: int| 0 <= j < pf implies !match_at(s, fore, j) by {
        if match_at(s, fore, j) {
            if j + fl <= p1 {
                assert(s.subrange(j, j + fl) =~= t.subrange(j, j + fl));
                assert(match_at(t, fore, j));
            }
        }
    }
    lemma_find_from_complete(s, fore, 0, pf);
    let rf = find_from(s, fore, 0)->0;
    lemma_find_from_some(s, fore, 0, rf);
    assert(rf == pf);
    // Likewise the item's occurrence behind the anchor.
    assert(s.subrange(i0, i0 + l) =~= t.subrange(i0, i0 + l));
    assert(match_at(s, item, i0));
    assert forall|j: int| pf + 1 <= j < i0 implies !match_at(s, item, j) by {
        if match_at(s, item, j) {
            if j + l <= p1 {
                assert(s.subrange(j, j + l) =~= t.subrange(j, j + l));
                assert(match_at(t, item, j));
            }
        }
    }
    lemma_find_from_complete(s, item, pf + 1, i0);
    let ri = find_from(s, item, pf + 1)->0;
    lemma_find_from_some(s, item, pf + 1, ri);
    assert(ri == i0);
    // The terminator after the span is the one the replacement kept.
    assert(";"@ =~= seq![';']);
    assert(t.subrange(p2, p2 + 1)[0] == t[p2]);
    assert(t[p2] == ';');
    assert forall|j: int| q <= j < s.len() implies s[j] == t[p2 + (j - q)] by {
        assert(s[j] == t.subrange(p2, t.len() as int)[j - q]);
    }
    assert(s[q] == t[p2]);
    assert(s.subrange(q, q + 1) =~= ";"@);
    assert(match_at(s, ";"@, q));
    assert forall|j: int| p1 <= j < q implies !match_at(s, ";"@, j) by {
        if match_at(s, ";"@, j) {
            assert(s.subrange(j, j + 1)[0] == s[j]);
            assert(s[j] == ';');
            assert(s[j] == (t.subrange(0, p1) + v)[j]);
            assert(s[j] == v[j - p1]);
        }
    }
    lemma_find_from_complete(s, ";"@, p1, q);
    let rs = find_from(s, ";"@, p1)->0;
    lemma_find_from_some(s, ";"@, p1, rs);
    assert(rs == q);
    // Replacing the same span with the same value reproduces the content.
    let s2 = s.subrange(0, p1) + v + s.subrange(q, s.len() as int);
    assert(s.subrange(0, p1) =~= t.subrange(0, p1));
    assert(s.subrange(q, s.len() as int) =~= t.subrange(p2, t.len() as int));
    assert(s2 == s);
    assert(fore_replace_spec(s, fore, item, v) == Some(s2));
}

/// Candidates that fail do not advance the content: the cascade's result
/// is decided from the first candidate that is not known to fail.
pub proof fn lemma_try_cands_skip_failures(
    t: Seq<char>,
    cands: Seq<(Seq<char>, Seq<char>)>,
    v: Seq<char>,
    m: int,
)
    requires
        0 <= m <= cands.len(),
        forall|j: int| 0 <= j < m ==> fore_replace_spec(t, (#[trigger] cands[j]).0, cands[j].1,
            v) is None,
    ensures
        try_cands(t, cands, v) == try_cands(t, cands.skip(m), v),
    decreases m,
{
    if m > 0 {
        assert(cands.drop_first() =~= cands.skip(1));
        assert(forall|j: int| 0 <= j < m - 1 ==> cands.skip(1)[j] == cands[j + 1]);
        lemma_try_cands_skip_failures(t, cands.skip(1), v, m - 1);
        assert(cands.skip(1).skip(m - 1) =~= cands.skip(m));
    } else {
        assert(cands.skip(0) =~= cands);
    }
}

/// Second-run idempotence of the scope-decomposing edit: when the
/// candidate that succeeded keeps its shape in the edited content and the
/// anchors of the candidates tried before it are absent from that content,
/// rerunning the cascade reproduces the content exactly.
pub proof fn lemma_fore_arg_rerun(t: Seq<char>, item: Seq<char>, v: Seq<char>, m: int)
    requires
        0 <= m < candidates(item).len(),
        forall|j: int| 0 <= j < m ==> fore_replace_spec(t, (#[trigger] candidates(item)[j]).0,
            candidates(item)[j].1, v) is None,
        fore_replace_spec(t, candidates(item)[m].0, candidates(item)[m].1, v) is Some,
        semi_free(v),
        find_from(t, candidates(item)[m].0, 0)->0 + candidates(item)[m].0.len() <= find_from(
            t,
            candidates(item)[m].1,
            find_from(t, candidates(item)[m].0, 0)->0 + 1,
        )->0 + candidates(item)[m].1.len() + 2,
        forall|j: int| 0 <= j < m ==> !contains_seq(
            fore_replace_spec(t, candidates(item)[m].0, candidates(item)[m].1, v)->0,
            (#[trigger] candidates(item)[j]).0,
        ),
    ensures
        fore_arg_spec(fore_arg_spec(t, item, v), item, v) == fore_arg_spec(t, item, v),
{
    let cands = candidates(item);
    let s = fore_replace_spec(t, cands[m].0, cands[m].1, v)->0;
    // The first run reaches candidate m and stops there.
    lemma_try_cands_skip_failures(t, cands, v, m);
    assert(cands.skip(m)[0] == cands[m]);
    assert(try_cands(t, cands.skip(m), v) == s);
    assert(fore_arg_spec(t, item, v) == s);
    // On the edited content the earlier candidates still fail, for their
    // anchors are absent, and candidate m rewrites its own span in place.
    assert forall|j: int| 0 <= j < m implies fore_replace_spec(s, (#[trigger] cands[j]).0,
        cands[j].1, v) is None by {
        assert(!contains_seq(s, cands[j].0));
        assert(find_from(s, cands[j].0, 0) is None);
    }
    lemma_try_cands_skip_failures(s, cands, v, m);
    lemma_fore_replace_idempotent(t, cands[m].0, cands[m].1, v);
    assert(fore_replace_spec(s, cands[m].0, cands[m].1, v) == Some(s));
    assert(try_cands(s, cands.skip(m), v) == s);
    assert(fore_arg_spec(s, item, v) == s);
}

/// A successful insertion carries every substring of the inserted text
/// into the result: in particular a guard marker contained in it.
pub proof fn lemma_insert_preserves_marker(
    t: Seq<char>,
    ins: Seq<char>,
    f1: Seq<char>,
    f2: Seq<char>,
    marker: Seq<char>,
    d: int,
)
    requires
        insert_spec(t, ins, f1, f2) is Some,
        0 <= d,
        d + marker.len() <= ins.len(),
        ins.subrange(d, d + marker.len() as int) == marker,
    ensures
        contains_seq(insert_spec(t, ins, f1, f2)->0, marker),
{
    let p1 = find_from(t, f1, 0)->0;
    lemma_find_from_some(t, f1, 0, p1);
    let p2 = find_from(t, f2, p1 + 1)->0;
    lemma_find_from_some(t, f2, p1 + 1, p2);
    let s = t.subrange(0, p2) + ins + t.subrange(p2, t.len() as int);
    assert(insert_spec(t, ins, f1, f2) == Some(s));
    let m = marker.len() as int;
    assert forall|k: int| 0 <= k < m implies s[p2 + d + k] == marker[k] by {
        assert(s[p2 + d + k] == (t.subrange(0, p2) + ins)[p2 + d + k]);
        assert(s[p2 + d + k] == ins[d + k]);
        assert(ins.subrange(d, d + m)[k] == ins[d + k]);
    }
    assert(s.subrange(p2 + d, p2 + d + m) =~= marker);
    assert(match_at(s, marker, p2 + d));
    lemma_find_from_complete(s, marker, 0, p2 + d);
}

/// The marker that guards the one-time media-query block: once the block
/// is present, the edit is skipped to stay idempotent across reruns.
pub open spec fn media_marker() -> Seq<char> {
    "@media only screen and (max-width:1439px)"@
}

/// The media-query block inserted for the mobile content width setting,
/// parameterized by the configured value.
pub open spec fn media_block(v: Seq<char>) -> Seq<char> {
    "\n@media only screen and (max-width:1439px) {\n :root{\n    --content-max-width: "@ + v
        + ";\n  }\n}\n\n"@
}

/// The declaration line inserted inside the root scope when a setting has
/// no existing declaration to replace.
pub open spec fn root_var_line(item: Seq<char>, v: Seq<char>) -> Seq<char> {
    "\n    --"@ + item + ": "@ + v + ";\n"@
}

/// Setting names that carry a color-theme scope prefix and are routed
/// through the scope-decomposing edit.
pub open spec fn is_theme_scoped(item: Seq<char>) -> bool {
    ||| starts_with_seq(item, "light"@)
    ||| starts_with_seq(item, "ayu"@)
    ||| starts_with_seq(item, "rust"@)
    ||| starts_with_seq(item, "navy"@)
    ||| starts_with_seq(item, "coal"@)
}

/// One edit of the variables-like target: the mobile width setting inserts
/// its guarded media block, theme-scoped settings go through the scope
/// decomposition, and any other setting is replaced directly or, failing
/// that, declared anew inside the root scope.  An edit whose anchors are
/// all missing is dropped and the content left unchanged.
pub open spec fn variables_spec(t: Seq<char>, item: Seq<char>, v: Seq<char>) -> Seq<char> {
    if item == "mobile-content-max-width"@ {
        if contains_seq(t, media_marker()) {
            t
        } else {
            match insert_spec(t, media_block(v), "}"@, "/* Themes */"@) {
                Some(s) => s,
                None => t,
            }
        }
    } else if is_theme_scoped(item) {
        fore_arg_spec(t, item, v)
    } else {
        match replace_spec(t, item, v) {
            Some(s) => s,
            None => match insert_spec(t, root_var_line(item, v), ":root"@, "}\n"@) {
                Some(s) => s,
                None => t,
            },
        }
    }
}

/// Idempotence of the guarded media-block edit: applying the mobile
/// content-width edit twice gives the same content as applying it once —
/// after a first successful insertion the marker is present and the second
/// application skips.
pub proof fn lemma_variables_mobile_idempotent(t: Seq<char>, v: Seq<char>)
    ensures
        variables_spec(
            variables_spec(t, "mobile-content-max-width"@, v),
            "mobile-content-max-width"@,
            v,
        ) == variables_spec(t, "mobile-content-max-width"@, v),
{
    let m = "mobile-content-max-width"@;
    if !contains_seq(t, media_marker()) {
        match insert_spec(t, media_block(v), "}"@, "/* Themes */"@) {
            None => {},
            Some(s) => {
                reveal_strlit("@media only screen and (max-width:1439px)");
                reveal_strlit(
                    "\n@media only screen and (max-width:1439px) {\n :root{\n    --content-max-width: ",
                );
                let a =
                    "\n@media only screen and (max-width:1439px) {\n :root{\n    --content-max-width: "@;
                let mk = media_marker();
                assert(mk.len() == 41);
                assert(a.len() == 78);
                assert forall|k: int| 0 <= k < mk.len() implies media_block(v)[1 + k] == mk[k] by {
                    assert(media_block(v)[1 + k] == (a + v)[1 + k]);
                    assert(media_block(v)[1 + k] == a[1 + k]);
                }
                assert(media_block(v).subrange(1, 1 + mk.len() as int) =~= mk);
                lemma_insert_preserves_marker(t, media_block(v), "}"@, "/* Themes */"@, mk, 1);
            },
        }
    }
}

/// Idempotence of a direct variables edit: a setting that is neither the
/// mobile width nor theme-scoped, whose replacement succeeded with a
/// `;`-free value, changes nothing when applied again.
pub proof fn lemma_variables_replace_idempotent(t: Seq<char>, item: Seq<char>, v: Seq<char>)
    requires
        item != "mobile-content-max-width"@,
        !is_theme_scoped(item),
        replace_spec(t, item, v) is Some,
        semi_free(v),
    ensures
        variables_spec(variables_spec(t, item, v), item, v) == variables_spec(t, item, v),
{
    lemma_replace_idempotent(t, item, v);
}

impl Content {
    /// Apply one edit of the variables-like target; see
    /// [`variables_spec`] for the three routes an edit can take.
    pub fn variables(&mut self, item: &str, value: &str)
        ensures
            final(self)@ == variables_spec(old(self)@, item@, value@),
    {
        if str_eq(item, "mobile-content-max-width") {
            let present = contains_str(self.0.as_str(), "@media only screen and (max-width:1439px)");
            if !present {
                let mut block = String::from_str(
                    "\n@media only screen and (max-width:1439px) {\n :root{\n    --content-max-width: ",
                );
                block.append(value);
                block.append(";\n  }\n}\n\n");
                let _ = self.insert(block.as_str(), "}", "/* Themes */");
            }
        } else if starts_with_str(item, "light") || starts_with_str(item, "ayu")
            || starts_with_str(item, "rust") || starts_with_str(item, "navy") || starts_with_str(
            item,
            "coal",
        ) {
            self.fore_arg(item, value);
        } else {
            let r = self.replace(item, value);
            if r.is_err() {
                let mut line = String::from_str("\n    --");
                line.append(item);
                line.append(": ");
                line.append(value);
                line.append(";\n");
                let _ = self.insert(line.as_str(), ":root", "}\n");
            }
        }
    }
}

/// Split a setting name at its hyphens.
fn split_dash_exec(s: &str) -> (r: Vec<String>)
    ensures
        r.deep_view() == split_dash(s@),
        r.deep_view().len() >= 1,
    decreases s@.len(),
{
    proof {
        reveal_strlit("-");
        assert("-"@ =~= seq!['-']);
    }
    let slen: usize = s.unicode_len();
    match find_at(s, "-", 0) {
        None => {
            let mut v: Vec<String> = Vec::new();
            v.push(String::from_str(s));
            proof {
                assert(first_dash(s@) == s@.len());
                assert(v.deep_view() =~= split_dash(s@));
            }
            v
        },
        Some(p) => {
            proof {
                lemma_find_from_some(s@, seq!['-'], 0, p as int);
            }
            let head = s.substring_char(0, p);
            let tail = s.substring_char(p + 1, slen);
            let mut rest = split_dash_exec(tail);
            let mut v: Vec<String> = Vec::new();
            v.push(String::from_str(head));
            v.append(&mut rest);
            proof {
                assert(first_dash(s@) == p);
                assert(v.deep_view() =~= seq![s@.subrange(0, p as int)] + split_dash(
                    s@.subrange(p as int + 1, s@.len() as int)));
            }
            v
        },
    }
}

/// Render the first `k` segments as a brace-opening selector anchor.
fn build_fore(segs: &Vec<String>, k: usize, dot: bool, joint: &str) -> (r: String)
    requires
        1 <= k <= segs@.len(),
    ensures
        r@ == fore_of(segs.deep_view(), k as int, dot, joint@),
{
    proof {
        reveal_strlit("\n");
        reveal_strlit(".");
        reveal_strlit(" {");
        assert("\n"@ =~= seq!['\n']);
        assert("."@ =~= seq!['.']);
        assert(" {"@ =~= seq![' ', '{']);
    }
    let mut r = String::from_str("\n");
    if dot {
        r.append(".");
    }
    let ghost lead: Seq<char> = seq!['\n'] + (if dot {
        seq!['.']
    } else {
        Seq::<char>::empty()
    });
    proof {
        assert(r@ =~= lead + join_with(segs.deep_view().take(0), joint@));
    }
    let mut i: usize = 0;
    while i < k
        invariant
            0 <= i <= k,
            1 <= k <= segs@.len(),
            r@ == lead + join_with(segs.deep_view().take(i as int), joint@),
        decreases k - i,
    {
        if i > 0 {
            r.append(joint);
        }
        r.append(segs[i].as_str());
        proof {
            let dv = segs.deep_view();
            assert(dv.take(i as int + 1).drop_last() =~= dv.take(i as int));
            assert(dv.take(i as int + 1).last() == dv[i as int]);
            if i == 0 {
                assert(join_with(dv.take(1), joint@) == dv[0]);
                assert(r@ =~= lead + join_with(dv.take(1), joint@));
            } else {
                assert(join_with(dv.take(i as int + 1), joint@) == join_with(dv.take(i as int),
                    joint@) + joint@ + dv[i as int]);
                assert(r@ =~= lead + join_with(dv.take(i as int + 1), joint@));
            }
        }
        i = i + 1;
    }
    r.append(" {");
    proof {
        assert(r@ =~= fore_of(segs.deep_view(), k as int, dot, joint@));
    }
    r
}

/// Join the segments from `k` on back together with hyphens: the leaf
/// argument of a `k`-segment scope prefix.
fn build_arg(segs: &Vec<String>, k: usize) -> (r: String)
    requires
        k <= segs@.len(),
    ensures
        r@ == arg_of(segs.deep_view(), k as int),
{
    proof {
        reveal_strlit("-");
        assert("-"@ =~= seq!['-']);
    }
    let mut r = String::new();
    let n: usize = segs.len();
    let mut i: usize = k;
    while i < n
        invariant
            k <= i <= n,
            n == segs@.len(),
            r@ == join_with(segs.deep_view().subrange(k as int, i as int), seq!['-']),
        decreases n - i,
    {
        if i > k {
            r.append("-");
        }
        r.append(segs[i].as_str());
        proof {
            reveal_strlit("-");
            assert("-"@ =~= seq!['-']);
            let dv = segs.deep_view();
            assert(dv.subrange(k as int, i as int + 1).drop_last() =~= dv.subrange(k as int,
                i as int));
            assert(dv.subrange(k as int, i as int + 1).last() == dv[i as int]);
            if i == k {
                assert(dv.subrange(k as int, k as int).len() == 0);
                assert(dv.subrange(k as int, i as int + 1).len() == 1);
                assert(join_with(dv.subrange(k as int, i as int + 1), seq!['-']) == dv.subrange(
                    k as int, i as int + 1)[0]);
                assert(r@ =~= join_with(dv.subrange(k as int, i as int + 1), seq!['-']));
            } else {
                assert(join_with(dv.subrange(k as int, i as int + 1), seq!['-']) == join_with(
                    dv.subrange(k as int, i as int), seq!['-']) + seq!['-'] + dv[i as int]);
                assert(r@ =~= join_with(dv.subrange(k as int, i as int + 1), seq!['-']));
            }
        }
        i = i + 1;
    }
    proof {
        assert(segs.deep_view().subrange(k as int, n as int) =~= segs.deep_view().skip(k as int));
    }
    r
}

/// Append one candidate pair.
fn push_cand(v: &mut Vec<(String, String)>, fore: String, arg: String)
    ensures
        final(v).deep_view() == old(v).deep_view().push((fore@, arg@)),
{
    let ghost fv = fore@;
    let ghost av = arg@;
    v.push((fore, arg));
    proof {
        assert(v.deep_view() =~= old(v).deep_view().push((fv, av)));
    }
}

/// Build the full candidate list of a multi-segment setting name, in the
/// order the candidates are tried.
fn build_candidates(segs: &Vec<String>) -> (r: Vec<(String, String)>)
    requires
        segs@.len() >= 2,
    ensures
        r.deep_view() == cands_down(segs.deep_view(), segs.deep_view().len() - 1),
{
    let n: usize = segs.len();
    let mut r: Vec<(String, String)> = Vec::new();
    let mut k: usize = n - 1;
    while k >= 1
        invariant
            0 <= k <= segs@.len() - 1,
            n == segs@.len(),
            n >= 2,
            cands_down(segs.deep_view(), segs.deep_view().len() - 1) =~= r.deep_view()
                + cands_down(segs.deep_view(), k as int),
        decreases k,
    {
        let arg = build_arg(segs, k);
        let f1 = build_fore(segs, k, true, " ");
        let f2 = build_fore(segs, k, true, "-");
        let f3 = build_fore(segs, k, false, " ");
        let f4 = build_fore(segs, k, false, "-");
        let ghost before = r.deep_view();
        push_cand(&mut r, f1, arg.clone());
        push_cand(&mut r, f2, arg.clone());
        push_cand(&mut r, f3, arg.clone());
        push_cand(&mut r, f4, arg);
        proof {
            reveal_strlit(" ");
            reveal_strlit("-");
            assert(" "@ =~= seq![' ']);
            assert("-"@ =~= seq!['-']);
            let dv = segs.deep_view();
            assert(r.deep_view() =~= before + cands_at(dv, k as int));
            assert(cands_down(dv, k as int) =~= cands_at(dv, k as int) + cands_down(dv,
                k as int - 1));
            assert(cands_down(dv, dv.len() - 1) =~= r.deep_view() + cands_down(dv, k as int - 1));
        }
        k = k - 1;
    }
    proof {
        assert(cands_down(segs.deep_view(), 0) =~= Seq::<(Seq<char>, Seq<char>)>::empty());
        assert(r.deep_view() =~= cands_down(segs.deep_view(), segs.deep_view().len() - 1));
    }
    r
}

} // verus!
