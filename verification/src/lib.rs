//! A configuration-driven text-patch engine for book themes.
//!
//! Given a table of named settings and a fixed registry mapping setting
//! names to target files, the library decides which targets are affected,
//! applies search-based text edits to each target's baseline content, and
//! reports which targets must be rewritten.

use vstd::prelude::*;

pub mod ace;
pub mod config;
pub mod content;
pub mod registry;
pub mod search;
pub mod theme;

use crate::search::str_eq;

verus! {

/// The error kinds the engine can report.
///
/// `StrNotFound` is the patch engine's own failure (a search primitive could
/// not locate a required substring); the others describe failures at the
/// filesystem or configuration boundary and are produced by callers that
/// drive the engine.
#[derive(Debug, Clone, Copy, PartialEq, Eq, Structural)]
pub enum Error {
    StrNotFound,
    FileNotFound,
    FileNotCreated,
    FileNotWritten,
    DirNotCreated,
    DirNotRemoved,
    DirNotRead,
    AceNotFound,
    MdbookNotParsed,
    DeserializedFailed,
}

/// The theme preprocessor: the caller hosts it inside the documentation
/// tool's preprocessor protocol and hands the settings table it carries to
/// [`config::run`].
pub struct PreTheme;

impl PreTheme {
    /// The name the preprocessor registers under.
    pub fn name(&self) -> (r: &str)
        ensures
            r@ == "theme"@,
    {
        "theme"
    }

    /// Only the markup renderer is supported.
    pub fn supports_renderer(&self, renderer: &str) -> (r: bool)
        ensures
            r == (renderer@ == "html"@),
    {
        str_eq(renderer, "html")
    }
}

/// The earlier preprocessor shell kept for compatibility: same protocol,
/// registered under its older name.
pub struct Nop;

impl Nop {
    /// The name this preprocessor registers under.
    pub fn name(&self) -> (r: &str)
        ensures
            r@ == "theme-pre"@,
    {
        "theme-pre"
    }

    /// Only the markup renderer is supported.
    pub fn supports_renderer(&self, renderer: &str) -> (r: bool)
        ensures
            r == (renderer@ == "html"@),
    {
        str_eq(renderer, "html")
    }
}

/// Settings of the word-count renderer: chapters to ignore, and whether a
/// chapter with an odd word count fails the run.
#[derive(Debug)]
pub struct WordcountConfig {
    pub ignores: Vec<String>,
    pub deny_odds: bool,
}

impl Default for WordcountConfig {
    /// Ignore nothing and deny nothing.
    fn default() -> (r: WordcountConfig)
        ensures
            r.ignores@.len() == 0,
            !r.deny_odds,
    {
        WordcountConfig { ignores: Vec::new(), deny_odds: false }
    }
}

/// Blank characters for the purpose of counting words.
pub open spec fn is_blank(c: char) -> bool {
    c == ' ' || c == '\t' || c == '\n' || c == '\r'
}

/// A word starts wherever a non-blank character follows the start of the
/// text or a blank character.
pub open spec fn word_starts_at(s: Seq<char>, i: int) -> bool {
    0 <= i < s.len() && !is_blank(s[i]) && (i == 0 || is_blank(s[i - 1]))
}

/// The number of word starts among the first `n` characters.
pub open spec fn word_count_to(s: Seq<char>, n: int) -> int
    decreases n,
{
    if n <= 0 {
        0
    } else {
        word_count_to(s, n - 1) + (if word_starts_at(s, n - 1) {
            1int
        } else {
            0int
        })
    }
}

/// The number of blank-separated words in the text.
pub open spec fn word_count(s: Seq<char>) -> int {
    word_count_to(s, s.len() as int)
}

/// Count the blank-separated words of a chapter's text.
pub fn count_words(content: &str) -> (n: usize)
    ensures
        n == word_count(content@),
{
    let len: usize = content.unicode_len();
    let mut n: usize = 0;
    let mut i: usize = 0;
    while i < len
        invariant
            0 <= i <= len,
            len == content@.len(),
            n == word_count_to(content@, i as int),
            n <= i,
        decreases len - i,
    {
        let c = content.get_char(i);
        if !(c == ' ' || c == '\t' || c == '\n' || c == '\r') {
            if i == 0 {
                n = n + 1;
            } else {
                let p = content.get_char(i - 1);
                if p == ' ' || p == '\t' || p == '\n' || p == '\r' {
                    n = n + 1;
                }
            }
        }
        i = i + 1;
    }
    n
}

} // verus!
