//! One target's processing pipeline: mark an override file, apply the
//! target's edit list to the baseline content, and decide whether the
//! result must be written back.
//!
//! The filesystem itself stays with the caller: it reports whether the
//! target's file exists and supplies the baseline text, and it performs
//! the write when [`Theme::needs_write`] says so.

use vstd::prelude::*;
use crate::content::{
    Content,
    fore_arg_spec,
    insert_spec,
    is_theme_scoped,
    replace_spec,
    semi_free,
    variables_spec,
    lemma_variables_replace_idempotent,
};
use crate::registry::{
    CssFile,
    Ready,
    chrome_defaults,
    filename_spec,
    general_defaults,
    is_asset,
    is_file_target,
    variables_defaults,
};
use crate::search::{contains_seq, contains_str, str_eq};

verus! {

/// The content of the variables-like target after its edit list is applied
/// in order.
pub open spec fn fold_variables(t: Seq<char>, pairs: Seq<(Seq<char>, Seq<char>)>) -> Seq<char>
    decreases pairs.len(),
{
    if pairs.len() == 0 {
        t
    } else {
        fold_variables(variables_spec(t, pairs[0].0, pairs[0].1), pairs.drop_first())
    }
}

/// The awkward general-target setting whose declaration starts at the root
/// selector and hides behind indentation: it is searched under a rewritten
/// name; every other setting is searched as given.
pub open spec fn general_item(item: Seq<char>) -> Seq<char> {
    if item == "root-font-size"@ {
        ":root-    font-size"@
    } else {
        item
    }
}

/// The content of the general target after its edit list is applied in
/// order, each setting through the scope decomposition.
pub open spec fn fold_general(t: Seq<char>, pairs: Seq<(Seq<char>, Seq<char>)>) -> Seq<char>
    decreases pairs.len(),
{
    if pairs.len() == 0 {
        t
    } else {
        fold_general(fore_arg_spec(t, general_item(pairs[0].0), pairs[0].1), pairs.drop_first())
    }
}

/// The content of the chrome target after its edit list is applied in
/// order, each setting through the scope decomposition.
pub open spec fn fold_chrome(t: Seq<char>, pairs: Seq<(Seq<char>, Seq<char>)>) -> Seq<char>
    decreases pairs.len(),
{
    if pairs.len() == 0 {
        t
    } else {
        fold_chrome(fore_arg_spec(t, pairs[0].0, pairs[0].1), pairs.drop_first())
    }
}

/// The marker comment that guards the one-time page-toc insertion in the
/// markup target.
pub open spec fn index_marker() -> Seq<char> {
    "<!-- Page table of contents -->"@
}

/// The block inserted once into the markup target: the marker comment and
/// the page-toc container, indented to the surrounding markup.
pub open spec fn index_insert() -> Seq<char> {
    " <!-- Page table of contents -->\n                        <div class=\"sidetoc\"><nav class=\"pagetoc\"></nav></div>\n\n                        "@
}

/// The markup target's single anchor-guarded insertion: a no-op once the
/// marker comment is present, and when either anchor is missing.
pub open spec fn index_apply(t: Seq<char>) -> Seq<char> {
    if contains_seq(t, index_marker()) {
        t
    } else {
        match insert_spec(t, index_insert(), "<main>"@, "{{{ content }}}"@) {
            Some(s) => s,
            None => t,
        }
    }
}

/// The inserted page-toc block carries the guard marker, so the markup
/// target's insertion happens at most once: applying the transformation
/// twice equals applying it once.
pub proof fn lemma_index_apply_idempotent(t: Seq<char>)
    ensures
        index_apply(index_apply(t)) == index_apply(t),
{
    if !contains_seq(t, index_marker()) {
        match insert_spec(t, index_insert(), "<main>"@, "{{{ content }}}"@) {
            None => {},
            Some(s) => {
                reveal_strlit("<!-- Page table of contents -->");
                reveal_strlit(
                    " <!-- Page table of contents -->\n                        <div class=\"sidetoc\"><nav class=\"pagetoc\"></nav></div>\n\n                        ",
                );
                let mk = index_marker();
                let ins = index_insert();
                assert(mk.len() == 31);
                assert(ins.len() == 137);
                assert forall|k: int| 0 <= k < mk.len() implies ins[1 + k] == mk[k] by {}
                assert(ins.subrange(1, 1 + mk.len() as int) =~= mk);
                crate::content::lemma_insert_preserves_marker(t, ins, "<main>"@,
                    "{{{ content }}}"@, mk, 1);
            },
        }
    }
}

/// Second-run idempotence of the markup target: a rerun finds the file a
/// first run wrote, loads it as an override baseline, and processes it
/// under the target's filename; the content does not change again, so the
/// guard orders no write.
pub proof fn lemma_index_rerun_unchanged(t: Seq<char>, pairs: Seq<(Seq<char>, Seq<char>)>)
    ensures
        apply_by_name("index.hbs"@, index_apply(t), pairs) == index_apply(t),
{
    reveal_strlit("index.hbs");
    reveal_strlit("css/variables.css");
    reveal_strlit("css/general.css");
    reveal_strlit("css/chrome.css");
    assert("index.hbs"@.len() == 9);
    assert("css/variables.css"@.len() == 17);
    assert("css/general.css"@.len() == 15);
    assert("css/chrome.css"@.len() == 14);
    lemma_index_apply_idempotent(t);
}

/// Second-run idempotence of a direct variables edit through the override
/// path: after a first run wrote the replaced value, a rerun loads the
/// written file as an override baseline, applies the same edit under the
/// target's filename, and changes nothing, so the guard orders no write.
pub proof fn lemma_variables_rerun_single(t: Seq<char>, item: Seq<char>, v: Seq<char>)
    requires
        item != "mobile-content-max-width"@,
        !is_theme_scoped(item),
        replace_spec(t, item, v) is Some,
        semi_free(v),
    ensures
        apply_by_name("css/variables.css"@, fold_variables(t, seq![(item, v)]), seq![(item, v)])
            == fold_variables(t, seq![(item, v)]),
{
    let ps = seq![(item, v)];
    assert(ps.drop_first() =~= Seq::<(Seq<char>, Seq<char>)>::empty());
    assert(ps[0] == (item, v));
    let s = variables_spec(t, item, v);
    assert(fold_variables(s, ps.drop_first()) == s);
    assert(fold_variables(t, ps) == s);
    lemma_variables_replace_idempotent(t, item, v);
    let s2 = variables_spec(s, item, v);
    assert(fold_variables(s2, ps.drop_first()) == s2);
    assert(fold_variables(s, ps) == s2);
}

/// Second-run idempotence of the asset targets: a rerun finds the asset
/// file present, loads it as an override baseline, applies no edits to it,
/// and the guard orders no write.
pub proof fn lemma_asset_rerun_unchanged(t: Seq<char>, pairs: Seq<(Seq<char>, Seq<char>)>)
    ensures
        apply_by_name("pagetoc.js"@, t, pairs) == t,
        apply_by_name("pagetoc.css"@, t, pairs) == t,
{
    reveal_strlit("pagetoc.js");
    reveal_strlit("pagetoc.css");
    reveal_strlit("index.hbs");
    reveal_strlit("css/variables.css");
    reveal_strlit("css/general.css");
    reveal_strlit("css/chrome.css");
    assert("pagetoc.js"@.len() == 10);
    assert("pagetoc.css"@.len() == 11);
    assert("index.hbs"@.len() == 9);
    assert("css/variables.css"@.len() == 17);
    assert("css/general.css"@.len() == 15);
    assert("css/chrome.css"@.len() == 14);
}

/// The per-filename dispatch used for override files: a known filename is
/// processed as the target it belongs to, any other content passes through
/// unchanged.
pub open spec fn apply_by_name(
    n: Seq<char>,
    t: Seq<char>,
    pairs: Seq<(Seq<char>, Seq<char>)>,
) -> Seq<char> {
    if n == "css/variables.css"@ {
        fold_variables(t, pairs)
    } else if n == "css/general.css"@ {
        fold_general(t, pairs)
    } else if n == "css/chrome.css"@ {
        fold_chrome(t, pairs)
    } else if n == "index.hbs"@ {
        index_apply(t)
    } else {
        t
    }
}

/// The per-target dispatch: which transformation family a target's content
/// goes through.  Asset and pass-through targets keep their content as
/// loaded.
pub open spec fn target_apply(
    css: CssFile,
    t: Seq<char>,
    pairs: Seq<(Seq<char>, Seq<char>)>,
) -> Seq<char> {
    match css {
        CssFile::Variables => fold_variables(t, pairs),
        CssFile::General => fold_general(t, pairs),
        CssFile::Chrome => fold_chrome(t, pairs),
        CssFile::Index => index_apply(t),
        CssFile::Custom(f) => apply_by_name(f@, t, pairs),
        _ => t,
    }
}

/// One unit of work: a target together with the edit list to apply to it.
#[derive(Debug)]
pub struct Job {
    pub cssfile: CssFile,
    pub ready: Ready,
}

impl View for Job {
    type V = (CssFile, Seq<(Seq<char>, Seq<char>)>);

    open spec fn view(&self) -> (CssFile, Seq<(Seq<char>, Seq<char>)>) {
        (self.cssfile, self.ready@)
    }
}

impl DeepView for Job {
    type V = (CssFile, Seq<(Seq<char>, Seq<char>)>);

    open spec fn deep_view(&self) -> (CssFile, Seq<(Seq<char>, Seq<char>)>) {
        (self.cssfile, self.ready@)
    }
}

/// The fixed bundle the feature toggle expands into, in its fixed
/// processing order, each target with its registered defaults.
pub open spec fn pagetoc_jobs() -> Seq<(CssFile, Seq<(Seq<char>, Seq<char>)>)> {
    seq![
        (CssFile::Variables, variables_defaults()),
        (CssFile::Index, Seq::<(Seq<char>, Seq<char>)>::empty()),
        (CssFile::PagetocJs, Seq::<(Seq<char>, Seq<char>)>::empty()),
        (CssFile::PagetocCss, Seq::<(Seq<char>, Seq<char>)>::empty()),
        (CssFile::General, general_defaults()),
        (CssFile::Chrome, chrome_defaults()),
    ]
}

/// One target's processing state: the chosen target, the content being
/// edited, a retained copy of the loaded baseline for the final diff, and
/// the edit list to apply.
#[derive(Debug)]
pub struct Theme {
    pub cssfile: CssFile,
    pub content: Content,
    pub content_cmp: Content,
    pub ready: Ready,
}

impl Default for Theme {
    /// An empty pipeline state marked with an unnamed override target.
    fn default() -> (r: Theme)
        ensures
            r.cssfile matches CssFile::Custom(f) && f@ == Seq::<char>::empty(),
            r.content@ == Seq::<char>::empty(),
            r.ready@ == Seq::<(Seq<char>, Seq<char>)>::empty(),
    {
        Theme {
            cssfile: CssFile::Custom(String::new()),
            content: Content::default(),
            content_cmp: Content::default(),
            ready: Ready::default(),
        }
    }
}

impl Theme {
    /// The retained copy of the loaded baseline that the final diff
    /// compares against.
    pub open spec fn baseline_view(&self) -> Seq<char> {
        self.content_cmp@
    }

    /// Start a pipeline for one target with the edits resolved for it.
    pub fn from(cssfile: CssFile, ready: Ready) -> (r: Theme)
        ensures
            r.cssfile == cssfile,
            r.ready@ == ready@,
            r.content@ == Seq::<char>::empty(),
            r.baseline_view() == Seq::<char>::empty(),
    {
        Theme { cssfile, content: Content::default(), content_cmp: Content::default(), ready }
    }

    /// Mark the target as a user-supplied override when its file already
    /// exists on disk: the override's own content then becomes the
    /// baseline, processed under the target's filename.
    pub fn cssfile(self, file_exists: bool) -> (r: Theme)
        requires
            is_file_target(&self.cssfile),
        ensures
            r.content@ == self.content@,
            r.baseline_view() == self.baseline_view(),
            r.ready@ == self.ready@,
            file_exists ==> (r.cssfile matches CssFile::Custom(f) && f@ == filename_spec(
                &self.cssfile)),
            !file_exists ==> r.cssfile == self.cssfile,
    {
        if file_exists {
            let filename = self.cssfile.filename();
            Theme { cssfile: CssFile::Custom(filename), ..self }
        } else {
            self
        }
    }

    /// Adopt the loaded baseline, retain a copy for the final diff, and
    /// apply the target's whole edit list to it.
    pub fn content(self, baseline: Content) -> (r: Theme)
        ensures
            r.cssfile == self.cssfile,
            r.ready@ == self.ready@,
            r.baseline_view() == baseline@,
            r.content@ == target_apply(self.cssfile, baseline@, self.ready@),
    {
        let cmp = baseline.clone();
        let mut t = Theme { cssfile: self.cssfile, content: baseline, content_cmp: cmp,
            ready: self.ready };
        t.content_process();
        t
    }

    /// The canonical per-target procedure short of the write itself: mark
    /// an override, then process the baseline; ask [`Theme::needs_write`]
    /// afterwards.
    pub fn process(self, file_exists: bool, baseline: Content) -> (r: Theme)
        requires
            is_file_target(&self.cssfile),
        ensures
            r.ready@ == self.ready@,
            r.baseline_view() == baseline@,
            r.content@ == target_apply(r.cssfile, baseline@, self.ready@),
            file_exists ==> (r.cssfile matches CssFile::Custom(f) && f@ == filename_spec(
                &self.cssfile)),
            !file_exists ==> r.cssfile == self.cssfile,
    {
        let marked = self.cssfile(file_exists);
        marked.content(baseline)
    }

    /// Whether the processed content must be written back: only when it
    /// differs from the loaded baseline, or for an asset-only target whose
    /// file is absent.
    pub fn needs_write(&self, file_exists: bool) -> (r: bool)
        ensures
            r == (self.content@ != self.baseline_view() || (is_asset(&self.cssfile)
                && !file_exists)),
    {
        let differs = !(self.content == self.content_cmp);
        let asset = matches!(self.cssfile, CssFile::PagetocJs | CssFile::PagetocCss);
        differs || (asset && !file_exists)
    }

    /// The feature toggle's expansion: the fixed list of affected targets
    /// in their fixed processing order, each with its registered defaults.
    pub fn pagetoc() -> (r: Vec<Job>)
        ensures
            r.deep_view() == pagetoc_jobs(),
    {
        let mut v: Vec<Job> = Vec::new();
        v.push(Job { cssfile: CssFile::Variables, ready: Ready::get_defualt(CssFile::Variables) });
        v.push(Job { cssfile: CssFile::Index, ready: Ready::get_defualt(CssFile::Index) });
        v.push(Job { cssfile: CssFile::PagetocJs, ready: Ready::get_defualt(CssFile::PagetocJs) });
        v.push(Job { cssfile: CssFile::PagetocCss, ready: Ready::get_defualt(
            CssFile::PagetocCss) });
        v.push(Job { cssfile: CssFile::General, ready: Ready::get_defualt(CssFile::General) });
        v.push(Job { cssfile: CssFile::Chrome, ready: Ready::get_defualt(CssFile::Chrome) });
        proof {
            assert(v.deep_view() =~= pagetoc_jobs());
        }
        v
    }

    /// Route the content through the transformation family of its target.
    fn content_process(&mut self)
        ensures
            final(self).cssfile == old(self).cssfile,
            final(self).ready@ == old(self).ready@,
            final(self).content_cmp@ == old(self).content_cmp@,
            final(self).content@ == target_apply(old(self).cssfile, old(self).content@,
                old(self).ready@),
    {
        let c = self.cssfile.clone();
        match c {
            CssFile::Variables => self.process_variables(),
            CssFile::General => self.process_general(),
            CssFile::Chrome => self.process_chrome(),
            CssFile::Index => self.process_index(),
            CssFile::Custom(f) => {
                if str_eq(f.as_str(), "css/variables.css") {
                    self.process_variables();
                } else if str_eq(f.as_str(), "css/general.css") {
                    self.process_general();
                } else if str_eq(f.as_str(), "css/chrome.css") {
                    self.process_chrome();
                } else if str_eq(f.as_str(), "index.hbs") {
                    self.process_index();
                }
            },
            _ => {},
        }
    }

    /// Apply the edit list to the variables-like target.
    fn process_variables(&mut self)
        ensures
            final(self).cssfile == old(self).cssfile,
            final(self).ready@ == old(self).ready@,
            final(self).content_cmp@ == old(self).content_cmp@,
            final(self).content@ == fold_variables(old(self).content@, old(self).ready@),
    {
        let ghost t0 = self.content@;
        let ghost pairs = self.ready@;
        proof {
            assert(pairs.skip(0) =~= pairs);
        }
        let n: usize = self.ready.0.len();
        let mut i: usize = 0;
        while i < n
            invariant
                0 <= i <= n,
                n == self.ready.0.len(),
                self.cssfile == old(self).cssfile,
                self.ready@ == old(self).ready@,
                self.content_cmp@ == old(self).content_cmp@,
                pairs == old(self).ready@,
                t0 == old(self).content@,
                fold_variables(t0, pairs) == fold_variables(self.content@, pairs.skip(i as int)),
            decreases n - i,
        {
            proof {
                assert(pairs.skip(i as int)[0] == pairs[i as int]);
                assert(pairs.skip(i as int).drop_first() =~= pairs.skip(i as int + 1));
            }
            self.content.variables(self.ready.0[i].0.0.as_str(), self.ready.0[i].1.0.as_str());
            i = i + 1;
        }
        proof {
            assert(pairs.skip(n as int) =~= Seq::<(Seq<char>, Seq<char>)>::empty());
        }
    }

    /// Apply the edit list to the general target, each setting through the
    /// scope decomposition, with the root-font-size rewrite.
    fn process_general(&mut self)
        ensures
            final(self).cssfile == old(self).cssfile,
            final(self).ready@ == old(self).ready@,
            final(self).content_cmp@ == old(self).content_cmp@,
            final(self).content@ == fold_general(old(self).content@, old(self).ready@),
    {
        let ghost t0 = self.content@;
        let ghost pairs = self.ready@;
        proof {
            assert(pairs.skip(0) =~= pairs);
        }
        let n: usize = self.ready.0.len();
        let mut i: usize = 0;
        while i < n
            invariant
                0 <= i <= n,
                n == self.ready.0.len(),
                self.cssfile == old(self).cssfile,
                self.ready@ == old(self).ready@,
                self.content_cmp@ == old(self).content_cmp@,
                pairs == old(self).ready@,
                t0 == old(self).content@,
                fold_general(t0, pairs) == fold_general(self.content@, pairs.skip(i as int)),
            decreases n - i,
        {
            proof {
                assert(pairs.skip(i as int)[0] == pairs[i as int]);
                assert(pairs.skip(i as int).drop_first() =~= pairs.skip(i as int + 1));
            }
            if str_eq(self.ready.0[i].0.0.as_str(), "root-font-size") {
                self.content.fore_arg(":root-    font-size", self.ready.0[i].1.0.as_str());
            } else {
                self.content.fore_arg(self.ready.0[i].0.0.as_str(), self.ready.0[i].1.0.as_str());
            }
            i = i + 1;
        }
        proof {
            assert(pairs.skip(n as int) =~= Seq::<(Seq<char>, Seq<char>)>::empty());
        }
    }

    /// Apply the edit list to the chrome target, each setting through the
    /// scope decomposition.
    fn process_chrome(&mut self)
        ensures
            final(self).cssfile == old(self).cssfile,
            final(self).ready@ == old(self).ready@,
            final(self).content_cmp@ == old(self).content_cmp@,
            final(self).content@ == fold_chrome(old(self).content@, old(self).ready@),
    {
        let ghost t0 = self.content@;
        let ghost pairs = self.ready@;
        proof {
            assert(pairs.skip(0) =~= pairs);
        }
        let n: usize = self.ready.0.len();
        let mut i: usize = 0;
        while i < n
            invariant
                0 <= i <= n,
                n == self.ready.0.len(),
                self.cssfile == old(self).cssfile,
                self.ready@ == old(self).ready@,
                self.content_cmp@ == old(self).content_cmp@,
                pairs == old(self).ready@,
                t0 == old(self).content@,
                fold_chrome(t0, pairs) == fold_chrome(self.content@, pairs.skip(i as int)),
            decreases n - i,
        {
            proof {
                assert(pairs.skip(i as int)[0] == pairs[i as int]);
                assert(pairs.skip(i as int).drop_first() =~= pairs.skip(i as int + 1));
            }
            self.content.fore_arg(self.ready.0[i].0.0.as_str(), self.ready.0[i].1.0.as_str());
            i = i + 1;
        }
        proof {
            assert(pairs.skip(n as int) =~= Seq::<(Seq<char>, Seq<char>)>::empty());
        }
    }

    /// The markup target's single anchor-guarded insertion.
    fn process_index(&mut self)
        ensures
            final(self).cssfile == old(self).cssfile,
            final(self).ready@ == old(self).ready@,
            final(self).content_cmp@ == old(self).content_cmp@,
            final(self).content@ == index_apply(old(self).content@),
    {
        let present = contains_str(self.content.get(), "<!-- Page table of contents -->");
        if !present {
            let _ = self.content.insert(
                " <!-- Page table of contents -->\n                        <div class=\"sidetoc\"><nav class=\"pagetoc\"></nav></div>\n\n                        ",
                "<main>",
                "{{{ content }}}",
            );
        }
    }
}

} // verus!
