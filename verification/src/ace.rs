//! The code-editor theme backend: pick a default editor stylesheet by the
//! configured theme name, extract the css class from a stylesheet, and
//! patch the editor's theme script with the class and the stylesheet text.
//!
//! Reading stylesheets and scripts from disk and writing the patched
//! script back stay with the caller; this module holds the search and
//! patch logic on the text itself.

use vstd::prelude::*;
use crate::Error;
use crate::search::{
    ends_with_seq,
    ends_with_str,
    find_from,
    find_at,
    splice,
    lemma_find_from_some,
};

verus! {

/// The configuration of the editor theme backend.  The directory fields
/// hold the paths the caller resolved for this run.
#[derive(Debug)]
pub struct Ace {
    pub theme_white: String,
    pub theme_dark: String,
    pub below_build_dir: bool,
    pub build_dir: String,
    pub theme_dir: String,
    pub destination: String,
}

impl Default for Ace {
    /// Empty paths and theme names; the build tree is flattened by
    /// default.
    fn default() -> (r: Ace)
        ensures
            r.theme_white@ == Seq::<char>::empty(),
            r.theme_dark@ == Seq::<char>::empty(),
            r.below_build_dir,
            r.build_dir@ == Seq::<char>::empty(),
            r.theme_dir@ == Seq::<char>::empty(),
            r.destination@ == Seq::<char>::empty(),
    {
        Ace {
            theme_white: String::new(),
            theme_dark: String::new(),
            below_build_dir: true,
            build_dir: String::new(),
            theme_dir: String::new(),
            destination: String::new(),
        }
    }
}

/// The span between the double quote that follows `target` and the next
/// double quote: the part of an editor script that names its css class or
/// carries its css text.
pub open spec fn quote_span_spec(t: Seq<char>, target: Seq<char>) -> Option<(int, int)> {
    match find_from(t, target, 0) {
        None => None,
        Some(i) => {
            let p1 = i + target.len();
            match find_from(t, "\""@, p1) {
                None => None,
                Some(p2) => Some((p1, p2)),
            }
        },
    }
}

/// Locate the quoted span behind `target`.
pub fn find(content: &str, target: &str) -> (r: Result<(usize, usize), Error>)
    ensures
        (match r {
            Ok(p) => quote_span_spec(content@, target@) == Some((p.0 as int, p.1 as int)) && p.0
                <= p.1 <= content@.len(),
            Err(e) => quote_span_spec(content@, target@) is None && e == Error::StrNotFound,
        }),
{
    let clen: usize = content.unicode_len();
    match find_at(content, target, 0) {
        None => Err(Error::StrNotFound),
        Some(i) => {
            proof {
                lemma_find_from_some(content@, target@, 0, i as int);
            }
            let tlen: usize = target.unicode_len();
            let p1 = i + tlen;
            match find_at(content, "\"", p1) {
                None => Err(Error::StrNotFound),
                Some(p2) => {
                    proof {
                        lemma_find_from_some(content@, "\""@, p1 as int, p2 as int);
                    }
                    Ok((p1, p2))
                },
            }
        },
    }
}

/// Newlines and double quotes flattened to spaces, every other character
/// kept: the sanitized form a stylesheet is searched and embedded in.
pub open spec fn sanitize(t: Seq<char>) -> Seq<char> {
    t.map_values(|c: char| if c == '\n' || c == '"' { ' ' } else { c })
}

/// The sanitized stylesheet with its css class: the first `.ace-`-prefixed
/// word of the sanitized text, without its leading dot.
pub open spec fn css_class_spec(t: Seq<char>) -> Option<(Seq<char>, Seq<char>)> {
    let s = sanitize(t);
    match find_from(s, ".ace-"@, 0) {
        None => None,
        Some(p1) => match find_from(s, " "@, p1) {
            None => None,
            Some(p2) => if p1 + 1 <= p2 {
                Some((s.subrange(p1 + 1, p2), s))
            } else {
                None
            },
        },
    }
}

/// Flatten newlines and double quotes to spaces.
fn sanitize_exec(t: &str) -> (r: String)
    ensures
        r@ == sanitize(t@),
{
    let tlen: usize = t.unicode_len();
    let mut r = String::new();
    let mut i: usize = 0;
    while i < tlen
        invariant
            0 <= i <= tlen,
            tlen == t@.len(),
            r@.len() == i,
            forall|k: int| 0 <= k < i ==> r@[k] == (if t@[k] == '\n' || t@[k] == '"' {
                ' '
            } else {
                t@[k]
            }),
        decreases tlen - i,
    {
        let c = t.get_char(i);
        if c == '\n' || c == '"' {
            r.append(" ");
            proof {
                reveal_strlit(" ");
            }
        } else {
            r.append(t.substring_char(i, i + 1));
        }
        i = i + 1;
    }
    proof {
        assert(r@ =~= sanitize(t@));
    }
    r
}

impl Ace {
    /// Extract the css class and the embeddable text of a stylesheet: the
    /// caller supplies the stylesheet it loaded, from the user's theme
    /// directory or from a built-in default.
    pub fn css_class_text(&self, css: &str) -> (r: Result<(String, String), Error>)
        ensures
            (match r {
                Ok(p) => css_class_spec(css@) == Some((p.0@, p.1@)),
                Err(e) => css_class_spec(css@) is None && e == Error::StrNotFound,
            }),
    {
        let s = sanitize_exec(css);
        let text = s.as_str();
        let tlen: usize = text.unicode_len();
        match find_at(text, ".ace-", 0) {
            None => Err(Error::StrNotFound),
            Some(p1) => {
                proof {
                    lemma_find_from_some(s@, ".ace-"@, 0, p1 as int);
                }
                match find_at(text, " ", p1) {
                    None => Err(Error::StrNotFound),
                    Some(p2) => {
                        proof {
                            lemma_find_from_some(s@, " "@, p1 as int, p2 as int);
                        }
                        if p1 + 1 <= p2 {
                            let class = String::from_str(text.substring_char(p1 + 1, p2));
                            Ok((class, s))
                        } else {
                            Err(Error::StrNotFound)
                        }
                    },
                }
            },
        }
    }

    /// The registered default stylesheet path matched by the configured
    /// theme name for the requested shade, `None` when no name matches.
    pub fn defult_css(&self, dark: bool) -> (r: Option<String>)
        ensures
            (match r {
                Some(s) => first_match_path(ace_paths_spec(), theme_name_spec(self, dark))
                    == Some(s@),
                None => first_match_path(ace_paths_spec(), theme_name_spec(self, dark)) is None,
            }),
    {
        let theme: &str = if dark {
            self.theme_dark.as_str()
        } else {
            self.theme_white.as_str()
        };
        let paths = ace_paths();
        let ghost full = ace_paths_spec();
        proof {
            assert(full.skip(0) =~= full);
        }
        let mut i: usize = 0;
        while i < paths.len()
            invariant
                0 <= i <= paths@.len(),
                paths.deep_view() == full,
                full == ace_paths_spec(),
                theme@ == theme_name_spec(self, dark),
                first_match_path(full, theme@) == first_match_path(full.skip(i as int), theme@),
            decreases paths@.len() - i,
        {
            proof {
                assert(full.skip(i as int)[0] == paths.deep_view()[i as int]);
            }
            if path_matches_exec(paths[i].as_str(), theme) {
                return Some(paths[i].clone());
            }
            proof {
                assert(full.skip(i as int).drop_first() =~= full.skip(i as int + 1));
            }
            i = i + 1;
        }
        proof {
            assert(full.skip(paths.deep_view().len() as int) =~= Seq::<Seq<char>>::empty());
        }
        None
    }

    /// The patched editor script: the quoted span behind the class marker
    /// replaced with the css class, then, in that result, the quoted span
    /// behind the text marker replaced with the css text.  The caller
    /// loads the script and writes the result back.
    pub fn write(&self, content: &str, css_class: &str, css_text: &str) -> (r: Result<
        String,
        Error,
    >)
        ensures
            (match r {
                Ok(s) => ace_patch_spec(content@, css_class@, css_text@) == Some(s@),
                Err(e) => ace_patch_spec(content@, css_class@, css_text@) is None && e
                    == Error::StrNotFound,
            }),
    {
        match find(content, "cssClass=\"") {
            Err(e) => Err(e),
            Ok(p) => {
                let step = splice(content, p.0, p.1, css_class);
                match find(step.as_str(), "cssText=\"") {
                    Err(e) => Err(e),
                    Ok(q) => Ok(splice(step.as_str(), q.0, q.1, css_text)),
                }
            },
        }
    }
}

/// The editor script after both patches: first the css class span, then,
/// in the once-patched text, the css text span.
pub open spec fn ace_patch_spec(t: Seq<char>, class: Seq<char>, text: Seq<char>) -> Option<
    Seq<char>,
> {
    match quote_span_spec(t, "cssClass=\""@) {
        None => None,
        Some(p) => {
            let t2 = t.subrange(0, p.0) + class + t.subrange(p.1, t.len() as int);
            match quote_span_spec(t2, "cssText=\""@) {
                None => None,
                Some(q) => Some(t2.subrange(0, q.0) + text + t2.subrange(q.1, t2.len() as int)),
            }
        },
    }
}

/// The theme name configured for the requested shade.
pub open spec fn theme_name_spec(a: &Ace, dark: bool) -> Seq<char> {
    if dark {
        a.theme_dark@
    } else {
        a.theme_white@
    }
}

/// A stylesheet path matches a theme name when its path without the
/// stylesheet suffix ends with that name.
pub open spec fn path_matches(p: Seq<char>, theme: Seq<char>) -> bool {
    ends_with_seq(p, ".css"@) && ends_with_seq(p.subrange(0, p.len() - ".css"@.len()), theme)
}

/// The first registered path matching the theme name.
pub open spec fn first_match_path(paths: Seq<Seq<char>>, theme: Seq<char>) -> Option<Seq<char>>
    decreases paths.len(),
{
    if paths.len() == 0 {
        None
    } else if path_matches(paths[0], theme) {
        Some(paths[0])
    } else {
        first_match_path(paths.drop_first(), theme)
    }
}

/// Whether one stylesheet path matches the theme name.
fn path_matches_exec(p: &str, theme: &str) -> (r: bool)
    ensures
        r == path_matches(p@, theme@),
{
    proof {
        reveal_strlit(".css");
        assert(".css"@.len() == 4);
    }
    if !ends_with_str(p, ".css") {
        return false;
    }
    let plen: usize = p.unicode_len();
    let stem = p.substring_char(0, plen - 4);
    ends_with_str(stem, theme)
}

/// The registered default stylesheet paths, in registration order.
pub open spec fn ace_paths_spec() -> Seq<Seq<char>> {
    seq![
        "./ace/theme/ambiance.css"@,
        "./ace/theme/chaos.css"@,
        "./ace/theme/chrome.css"@,
        "./ace/theme/clouds.css"@,
        "./ace/theme/clouds_midnight.css"@,
        "./ace/theme/cobalt.css"@,
        "./ace/theme/crimson_editor.css"@,
        "./ace/theme/dawn.css"@,
        "./ace/theme/dracula.css"@,
        "./ace/theme/dreamweaver.css"@,
        "./ace/theme/eclipse.css"@,
        "./ace/theme/github.css"@,
        "./ace/theme/gob.css"@,
        "./ace/theme/gruvbox.css"@,
        "./ace/theme/idle_fingers.css"@,
        "./ace/theme/iplastic.css"@,
        "./ace/theme/katzenmilch.css"@,
        "./ace/theme/kr_theme.css"@,
        "./ace/theme/kuroir.css"@,
        "./ace/theme/merbivore.css"@,
        "./ace/theme/merbivore_soft.css"@,
        "./ace/theme/mono_industrial.css"@,
        "./ace/theme/monokai.css"@,
        "./ace/theme/nord_dark.css"@,
        "./ace/theme/one_dark.css"@,
        "./ace/theme/pastel_on_dark.css"@,
        "./ace/theme/solarized_dark.css"@,
        "./ace/theme/solarized_light.css"@,
        "./ace/theme/sqlserver.css"@,
        "./ace/theme/terminal.css"@,
        "./ace/theme/textmate.css"@,
        "./ace/theme/tomorrow.css"@,
        "./ace/theme/tomorrow_night_blue.css"@,
        "./ace/theme/tomorrow_night_bright.css"@,
        "./ace/theme/tomorrow_night.css"@,
        "./ace/theme/tomorrow_night_eighties.css"@,
        "./ace/theme/twilight.css"@,
        "./ace/theme/vibrant_ink.css"@,
        "./ace/theme/xcode.css"@
    ]
}

/// Build the registered default stylesheet path table.
pub fn ace_paths() -> (r: Vec<String>)
    ensures
        r.deep_view() == ace_paths_spec(),
{
    let mut v: Vec<String> = Vec::new();
    v.push(String::from_str("./ace/theme/ambiance.css"));
    v.push(String::from_str("./ace/theme/chaos.css"));
    v.push(String::from_str("./ace/theme/chrome.css"));
    v.push(String::from_str("./ace/theme/clouds.css"));
    v.push(String::from_str("./ace/theme/clouds_midnight.css"));
    v.push(String::from_str("./ace/theme/cobalt.css"));
    v.push(String::from_str("./ace/theme/crimson_editor.css"));
    v.push(String::from_str("./ace/theme/dawn.css"));
    v.push(String::from_str("./ace/theme/dracula.css"));
    v.push(String::from_str("./ace/theme/dreamweaver.css"));
    v.push(String::from_str("./ace/theme/eclipse.css"));
    v.push(String::from_str("./ace/theme/github.css"));
    v.push(String::from_str("./ace/theme/gob.css"));
    v.push(String::from_str("./ace/theme/gruvbox.css"));
    v.push(String::from_str("./ace/theme/idle_fingers.css"));
    v.push(String::from_str("./ace/theme/iplastic.css"));
    v.push(String::from_str("./ace/theme/katzenmilch.css"));
    v.push(String::from_str("./ace/theme/kr_theme.css"));
    v.push(String::from_str("./ace/theme/kuroir.css"));
    v.push(String::from_str("./ace/theme/merbivore.css"));
    v.push(String::from_str("./ace/theme/merbivore_soft.css"));
    v.push(String::from_str("./ace/theme/mono_industrial.css"));
    v.push(String::from_str("./ace/theme/monokai.css"));
    v.push(String::from_str("./ace/theme/nord_dark.css"));
    v.push(String::from_str("./ace/theme/one_dark.css"));
    v.push(String::from_str("./ace/theme/pastel_on_dark.css"));
    v.push(String::from_str("./ace/theme/solarized_dark.css"));
    v.push(String::from_str("./ace/theme/solarized_light.css"));
    v.push(String::from_str("./ace/theme/sqlserver.css"));
    v.push(String::from_str("./ace/theme/terminal.css"));
    v.push(String::from_str("./ace/theme/textmate.css"));
    v.push(String::from_str("./ace/theme/tomorrow.css"));
    v.push(String::from_str("./ace/theme/tomorrow_night_blue.css"));
    v.push(String::from_str("./ace/theme/tomorrow_night_bright.css"));
    v.push(String::from_str("./ace/theme/tomorrow_night.css"));
    v.push(String::from_str("./ace/theme/tomorrow_night_eighties.css"));
    v.push(String::from_str("./ace/theme/twilight.css"));
    v.push(String::from_str("./ace/theme/vibrant_ink.css"));
    v.push(String::from_str("./ace/theme/xcode.css"));
    proof {
        assert(v.deep_view() =~= ace_paths_spec());
    }
    v
}

} // verus!
