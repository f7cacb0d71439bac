//! The static registry: the closed set of target files, the table of
//! registered setting names with their default values, the reverse lookup
//! from a setting name to its target, and the per-target default edit lists.

use vstd::prelude::*;
use crate::search::str_eq;

verus! {

/// A target file the engine may create or patch.
///
/// The first six variants are the modeled targets; `Custom` carries the
/// filename of a pre-existing override file found at a target's path;
/// `Invalid` marks settings that no target registers; `Pagetoc` stands for
/// the feature toggle that expands into several targets.
#[derive(Debug)]
pub enum CssFile {
    Variables,
    General,
    Chrome,
    Index,
    PagetocJs,
    PagetocCss,
    Invalid,
    Pagetoc,
    Custom(String),
}

/// Two targets are the same when they are the same variant and, for
/// `Custom`, carry the same filename.
pub open spec fn cssfile_eq(a: &CssFile, b: &CssFile) -> bool {
    match (a, b) {
        (CssFile::Variables, CssFile::Variables) => true,
        (CssFile::General, CssFile::General) => true,
        (CssFile::Chrome, CssFile::Chrome) => true,
        (CssFile::Index, CssFile::Index) => true,
        (CssFile::PagetocJs, CssFile::PagetocJs) => true,
        (CssFile::PagetocCss, CssFile::PagetocCss) => true,
        (CssFile::Invalid, CssFile::Invalid) => true,
        (CssFile::Pagetoc, CssFile::Pagetoc) => true,
        (CssFile::Custom(x), CssFile::Custom(y)) => x@ == y@,
        _ => false,
    }
}

impl PartialEq for CssFile {
    fn eq(&self, other: &CssFile) -> (r: bool) {
        match (self, other) {
            (CssFile::Variables, CssFile::Variables) => true,
            (CssFile::General, CssFile::General) => true,
            (CssFile::Chrome, CssFile::Chrome) => true,
            (CssFile::Index, CssFile::Index) => true,
            (CssFile::PagetocJs, CssFile::PagetocJs) => true,
            (CssFile::PagetocCss, CssFile::PagetocCss) => true,
            (CssFile::Invalid, CssFile::Invalid) => true,
            (CssFile::Pagetoc, CssFile::Pagetoc) => true,
            (CssFile::Custom(x), CssFile::Custom(y)) => str_eq(x.as_str(), y.as_str()),
            _ => false,
        }
    }
}

impl vstd::std_specs::cmp::PartialEqSpecImpl for CssFile {
    open spec fn obeys_eq_spec() -> bool {
        true
    }

    open spec fn eq_spec(&self, other: &CssFile) -> bool {
        cssfile_eq(self, other)
    }
}

impl Clone for CssFile {
    fn clone(&self) -> (r: CssFile)
        ensures
            cssfile_eq(&r, self),
    {
        match self {
            CssFile::Variables => CssFile::Variables,
            CssFile::General => CssFile::General,
            CssFile::Chrome => CssFile::Chrome,
            CssFile::Index => CssFile::Index,
            CssFile::PagetocJs => CssFile::PagetocJs,
            CssFile::PagetocCss => CssFile::PagetocCss,
            CssFile::Invalid => CssFile::Invalid,
            CssFile::Pagetoc => CssFile::Pagetoc,
            CssFile::Custom(f) => CssFile::Custom(f.clone()),
        }
    }
}

/// Targets that have a file of their own (all but `Invalid` and `Pagetoc`).
pub open spec fn is_file_target(c: &CssFile) -> bool {
    !(c is Invalid) && !(c is Pagetoc)
}

/// Asset-only targets: companion resources of the feature toggle, written
/// once when absent and never edited afterwards.
pub open spec fn is_asset(c: &CssFile) -> bool {
    c is PagetocJs || c is PagetocCss
}

/// The relative path registered for each modeled target.
pub open spec fn filename_spec(c: &CssFile) -> Seq<char> {
    match c {
        CssFile::Variables => "css/variables.css"@,
        CssFile::Index => "index.hbs"@,
        CssFile::PagetocJs => "pagetoc.js"@,
        CssFile::PagetocCss => "pagetoc.css"@,
        CssFile::General => "css/general.css"@,
        CssFile::Chrome => "css/chrome.css"@,
        CssFile::Custom(f) => f@,
        _ => Seq::empty(),
    }
}

/// Filenames that name one of the six modeled targets.
pub open spec fn is_known_filename(n: Seq<char>) -> bool {
    ||| n == "css/variables.css"@
    ||| n == "index.hbs"@
    ||| n == "pagetoc.js"@
    ||| n == "pagetoc.css"@
    ||| n == "css/general.css"@
    ||| n == "css/chrome.css"@
}

/// The modeled target registered for a known filename.
pub open spec fn variant_spec(n: Seq<char>) -> CssFile {
    if n == "css/variables.css"@ {
        CssFile::Variables
    } else if n == "index.hbs"@ {
        CssFile::Index
    } else if n == "pagetoc.js"@ {
        CssFile::PagetocJs
    } else if n == "pagetoc.css"@ {
        CssFile::PagetocCss
    } else if n == "css/general.css"@ {
        CssFile::General
    } else {
        CssFile::Chrome
    }
}

impl CssFile {
    /// The filename registered for this target; a `Custom` target carries
    /// its own.
    pub fn filename(&self) -> (r: String)
        requires
            is_file_target(self),
        ensures
            r@ == filename_spec(self),
    {
        match self {
            CssFile::Variables => String::from_str("css/variables.css"),
            CssFile::Index => String::from_str("index.hbs"),
            CssFile::PagetocJs => String::from_str("pagetoc.js"),
            CssFile::PagetocCss => String::from_str("pagetoc.css"),
            CssFile::General => String::from_str("css/general.css"),
            CssFile::Chrome => String::from_str("css/chrome.css"),
            CssFile::Custom(f) => f.clone(),
            _ => String::from_str(""),
        }
    }

    /// The target a known filename belongs to.
    pub fn variant(filename: &str) -> (r: CssFile)
        requires
            is_known_filename(filename@),
        ensures
            r == variant_spec(filename@),
    {
        if str_eq(filename, "css/variables.css") {
            CssFile::Variables
        } else if str_eq(filename, "index.hbs") {
            CssFile::Index
        } else if str_eq(filename, "pagetoc.js") {
            CssFile::PagetocJs
        } else if str_eq(filename, "pagetoc.css") {
            CssFile::PagetocCss
        } else if str_eq(filename, "css/general.css") {
            CssFile::General
        } else {
            CssFile::Chrome
        }
    }
}

/// A setting name recognized by the registry.
#[derive(Debug)]
pub struct Item(pub String);

impl View for Item {
    type V = Seq<char>;

    open spec fn view(&self) -> Seq<char> {
        self.0@
    }
}

impl DeepView for Item {
    type V = Seq<char>;

    open spec fn deep_view(&self) -> Seq<char> {
        self.0@
    }
}

impl Item {
    /// The setting name itself.
    pub fn get(&self) -> (r: &str)
        ensures
            r@ == self@,
    {
        self.0.as_str()
    }
}

impl Clone for Item {
    fn clone(&self) -> (r: Item)
        ensures
            r@ == self@,
    {
        Item(self.0.clone())
    }
}

/// A setting value, from the defaults or from user input.
#[derive(Debug)]
pub struct Value(pub String);

impl View for Value {
    type V = Seq<char>;

    open spec fn view(&self) -> Seq<char> {
        self.0@
    }
}

impl DeepView for Value {
    type V = Seq<char>;

    open spec fn deep_view(&self) -> Seq<char> {
        self.0@
    }
}

impl Value {
    /// The setting value itself.
    pub fn get(&self) -> (r: &str)
        ensures
            r@ == self@,
    {
        self.0.as_str()
    }
}

impl Clone for Value {
    fn clone(&self) -> (r: Value)
        ensures
            r@ == self@,
    {
        Value(self.0.clone())
    }
}

/// An ordered list of edits, each a setting name with the value to apply.
#[derive(Debug)]
pub struct Ready(pub Vec<(Item, Value)>);

impl View for Ready {
    type V = Seq<(Seq<char>, Seq<char>)>;

    open spec fn view(&self) -> Seq<(Seq<char>, Seq<char>)> {
        self.0.deep_view()
    }
}

impl Clone for Ready {
    fn clone(&self) -> (r: Ready)
        ensures
            r@ == self@,
    {
        let mut v: Vec<(Item, Value)> = Vec::new();
        let mut i: usize = 0;
        while i < self.0.len()
            invariant
                0 <= i <= self.0.len(),
                v@.len() == i,
                forall|k: int| 0 <= k < i ==> #[trigger] v@[k].deep_view() == self.0@[k].deep_view(),
            decreases self.0.len() - i,
        {
            let p = (self.0[i].0.clone(), self.0[i].1.clone());
            proof {
                assert(p.deep_view() == self.0@[i as int].deep_view());
            }
            v.push(p);
            i = i + 1;
        }
        proof {
            assert(v.deep_view() =~= self.0.deep_view());
        }
        Ready(v)
    }
}

impl Default for Ready {
    /// An empty edit list.
    fn default() -> (r: Ready)
        ensures
            r@ == Seq::<(Seq<char>, Seq<char>)>::empty(),
    {
        Ready(Vec::new())
    }
}

/// The registered default edits of the `Variables` target, in table order.
pub open spec fn variables_defaults() -> Seq<(Seq<char>, Seq<char>)> {
    seq![
        ("sidebar-width"@, "140px"@),
        ("page-padding"@, "15px"@),
        ("content-max-width"@, "82%"@),
        ("menu-bar-height"@, "40px"@),
        ("pagetoc-width"@, "13%"@),
        ("pagetoc-fontsize"@, "14.5px"@),
        ("mobile-content-max-width"@, "98%"@),
        ("light-links"@, "#1f1fff"@),
        ("light-inline-code-color"@, "#F42C4C"@),
        ("rust-links"@, "#2b79a2"@),
        ("rust-inline-code-color"@, "#6e6b5e"@),
        ("navy-links"@, "#2b79a2"@),
        ("navy-inline-code-color"@, "#c5c8c6"@),
        ("coal-links"@, "#2b79a2"@),
        ("coal-inline-code-color"@, "#c5c8c6"@),
        ("ayu-links"@, "#0096cf"@),
        ("ayu-inline-code-color"@, "#ffb454"@),
    ]
}

/// The registered default edits of the `General` target, in table order.
pub open spec fn general_defaults() -> Seq<(Seq<char>, Seq<char>)> {
    seq![
        ("content-padding"@, "0 10px"@),
        ("content-main-margin-left"@, "2%"@),
        ("content-main-margin-right"@, "2%"@),
        ("root-font-size"@, "70%"@),
        ("body-font-size"@, "1.5rem"@),
        ("code-font-size"@, "0.9em"@),
    ]
}

/// The registered default edits of the `Chrome` target, in table order.
pub open spec fn chrome_defaults() -> Seq<(Seq<char>, Seq<char>)> {
    seq![
        ("nav-chapters-max-width"@, "auto"@),
        ("nav-chapters-min-width"@, "auto"@),
        ("chapter-line-height"@, "2em"@),
        ("section-line-height"@, "1.5em"@),
        ("sidebar-font-size"@, "1em"@),
    ]
}

/// The default edit list registered for a target: empty for pass-through
/// and asset targets.
pub open spec fn defaults_spec(c: &CssFile) -> Seq<(Seq<char>, Seq<char>)> {
    match c {
        CssFile::Variables => variables_defaults(),
        CssFile::General => general_defaults(),
        CssFile::Chrome => chrome_defaults(),
        _ => Seq::empty(),
    }
}

/// The whole static registry: each registered setting name with the target
/// that registers it and its default value.
pub open spec fn registry_spec() -> Seq<(CssFile, Seq<char>, Seq<char>)> {
    variables_defaults().map_values(|p: (Seq<char>, Seq<char>)| (CssFile::Variables, p.0, p.1))
        + general_defaults().map_values(|p: (Seq<char>, Seq<char>)| (CssFile::General, p.0, p.1))
        + chrome_defaults().map_values(|p: (Seq<char>, Seq<char>)| (CssFile::Chrome, p.0, p.1))
}

/// `n` is one of the setting names in the edit list `s`.
pub open spec fn contains_name(s: Seq<(Seq<char>, Seq<char>)>, n: Seq<char>) -> bool {
    exists|k: int| 0 <= k < s.len() && #[trigger] s[k].0 == n
}

/// The target a setting name resolves to: the one that registers it, or
/// `None` for a name outside the registry.
pub open spec fn lookup_spec(n: Seq<char>) -> Option<CssFile> {
    if contains_name(variables_defaults(), n) {
        Some(CssFile::Variables)
    } else if contains_name(general_defaults(), n) {
        Some(CssFile::General)
    } else if contains_name(chrome_defaults(), n) {
        Some(CssFile::Chrome)
    } else {
        None
    }
}

/// Lengths and distinguishing characters of the registered setting names,
/// enough to tell any two names in different tables apart.
proof fn lemma_name_facts()
    ensures
        "sidebar-width"@.len() == 13,
        "page-padding"@.len() == 12,
        "content-max-width"@.len() == 17,
        "menu-bar-height"@.len() == 15,
        "pagetoc-width"@.len() == 13,
        "pagetoc-fontsize"@.len() == 16,
        "mobile-content-max-width"@.len() == 24,
        "light-links"@.len() == 11,
        "light-inline-code-color"@.len() == 23,
        "rust-links"@.len() == 10,
        "rust-inline-code-color"@.len() == 22,
        "navy-links"@.len() == 10,
        "navy-inline-code-color"@.len() == 22,
        "coal-links"@.len() == 10,
        "coal-inline-code-color"@.len() == 22,
        "ayu-links"@.len() == 9,
        "ayu-inline-code-color"@.len() == 21,
        "content-padding"@.len() == 15,
        "content-main-margin-left"@.len() == 24,
        "content-main-margin-right"@.len() == 25,
        "root-font-size"@.len() == 14,
        "body-font-size"@.len() == 14,
        "code-font-size"@.len() == 14,
        "nav-chapters-max-width"@.len() == 22,
        "nav-chapters-min-width"@.len() == 22,
        "chapter-line-height"@.len() == 19,
        "section-line-height"@.len() == 19,
        "sidebar-font-size"@.len() == 17,
        "coal-inline-code-color"@[0] == 'c',
        "content-main-margin-left"@[0] == 'c',
        "content-max-width"@[0] == 'c',
        "content-padding"@[0] == 'c',
        "menu-bar-height"@[0] == 'm',
        "mobile-content-max-width"@[0] == 'm',
        "nav-chapters-max-width"@[0] == 'n',
        "nav-chapters-max-width"@[3] == '-',
        "nav-chapters-min-width"@[0] == 'n',
        "nav-chapters-min-width"@[3] == '-',
        "navy-inline-code-color"@[3] == 'y',
        "rust-inline-code-color"@[0] == 'r',
        "sidebar-font-size"@[0] == 's',
{
    reveal_strlit("sidebar-width");
    reveal_strlit("page-padding");
    reveal_strlit("content-max-width");
    reveal_strlit("menu-bar-height");
    reveal_strlit("pagetoc-width");
    reveal_strlit("pagetoc-fontsize");
    reveal_strlit("mobile-content-max-width");
    reveal_strlit("light-links");
    reveal_strlit("light-inline-code-color");
    reveal_strlit("rust-links");
    reveal_strlit("rust-inline-code-color");
    reveal_strlit("navy-links");
    reveal_strlit("navy-inline-code-color");
    reveal_strlit("coal-links");
    reveal_strlit("coal-inline-code-color");
    reveal_strlit("ayu-links");
    reveal_strlit("ayu-inline-code-color");
    reveal_strlit("content-padding");
    reveal_strlit("content-main-margin-left");
    reveal_strlit("content-main-margin-right");
    reveal_strlit("root-font-size");
    reveal_strlit("body-font-size");
    reveal_strlit("code-font-size");
    reveal_strlit("nav-chapters-max-width");
    reveal_strlit("nav-chapters-min-width");
    reveal_strlit("chapter-line-height");
    reveal_strlit("section-line-height");
    reveal_strlit("sidebar-font-size");
    assert("sidebar-width"@.len() == 13);
    assert("page-padding"@.len() == 12);
    assert("content-max-width"@.len() == 17);
    assert("menu-bar-height"@.len() == 15);
    assert("pagetoc-width"@.len() == 13);
    assert("pagetoc-fontsize"@.len() == 16);
    assert("mobile-content-max-width"@.len() == 24);
    assert("light-links"@.len() == 11);
    assert("light-inline-code-color"@.len() == 23);
    assert("rust-links"@.len() == 10);
    assert("rust-inline-code-color"@.len() == 22);
    assert("navy-links"@.len() == 10);
    assert("navy-inline-code-color"@.len() == 22);
    assert("coal-links"@.len() == 10);
    assert("coal-inline-code-color"@.len() == 22);
    assert("ayu-links"@.len() == 9);
    assert("ayu-inline-code-color"@.len() == 21);
    assert("content-padding"@.len() == 15);
    assert("content-main-margin-left"@.len() == 24);
    assert("content-main-margin-right"@.len() == 25);
    assert("root-font-size"@.len() == 14);
    assert("body-font-size"@.len() == 14);
    assert("code-font-size"@.len() == 14);
    assert("nav-chapters-max-width"@.len() == 22);
    assert("nav-chapters-min-width"@.len() == 22);
    assert("chapter-line-height"@.len() == 19);
    assert("section-line-height"@.len() == 19);
    assert("sidebar-font-size"@.len() == 17);
    assert("coal-inline-code-color"@[0] == 'c');
    assert("content-main-margin-left"@[0] == 'c');
    assert("content-max-width"@[0] == 'c');
    assert("content-padding"@[0] == 'c');
    assert("menu-bar-height"@[0] == 'm');
    assert("mobile-content-max-width"@[0] == 'm');
    assert("nav-chapters-max-width"@[0] == 'n');
    assert("nav-chapters-max-width"@[3] == '-');
    assert("nav-chapters-min-width"@[0] == 'n');
    assert("nav-chapters-min-width"@[3] == '-');
    assert("navy-inline-code-color"@[3] == 'y');
    assert("rust-inline-code-color"@[0] == 'r');
    assert("sidebar-font-size"@[0] == 's');
}

/// A name registered outside the `Variables` table does not occur in it.
#[verifier::rlimit(100)]
proof fn lemma_outside_variables(n: Seq<char>)
    requires
        ({
            ||| n == "content-padding"@
            ||| n == "content-main-margin-left"@
            ||| n == "content-main-margin-right"@
            ||| n == "root-font-size"@
            ||| n == "body-font-size"@
            ||| n == "code-font-size"@
            ||| n == "nav-chapters-max-width"@
            ||| n == "nav-chapters-min-width"@
            ||| n == "chapter-line-height"@
            ||| n == "section-line-height"@
            ||| n == "sidebar-font-size"@
        }),
    ensures
        !contains_name(variables_defaults(), n),
{
    lemma_name_facts();
    assert forall|j: int| 0 <= j < variables_defaults().len() implies (#[trigger]
        variables_defaults()[j].0) != n by {
        if j == 0 {
            assert(variables_defaults()[0].0 != n);
        } else if j == 1 {
            assert(variables_defaults()[1].0 != n);
        } else if j == 2 {
            assert(variables_defaults()[2].0 != n);
        } else if j == 3 {
            assert(variables_defaults()[3].0 != n);
        } else if j == 4 {
            assert(variables_defaults()[4].0 != n);
        } else if j == 5 {
            assert(variables_defaults()[5].0 != n);
        } else if j == 6 {
            assert(variables_defaults()[6].0 != n);
        } else if j == 7 {
            assert(variables_defaults()[7].0 != n);
        } else if j == 8 {
            assert(variables_defaults()[8].0 != n);
        } else if j == 9 {
            assert(variables_defaults()[9].0 != n);
        } else if j == 10 {
            assert(variables_defaults()[10].0 != n);
        } else if j == 11 {
            assert(variables_defaults()[11].0 != n);
        } else if j == 12 {
            assert(variables_defaults()[12].0 != n);
        } else if j == 13 {
            assert(variables_defaults()[13].0 != n);
        } else if j == 14 {
            assert(variables_defaults()[14].0 != n);
        } else if j == 15 {
            assert(variables_defaults()[15].0 != n);
        } else {
            assert(variables_defaults()[16].0 != n);
        }
    }
}

/// A name registered in the `Chrome` table does not occur in the `General`
/// table.
#[verifier::rlimit(100)]
proof fn lemma_outside_general(n: Seq<char>)
    requires
        ({
            ||| n == "nav-chapters-max-width"@
            ||| n == "nav-chapters-min-width"@
            ||| n == "chapter-line-height"@
            ||| n == "section-line-height"@
            ||| n == "sidebar-font-size"@
        }),
    ensures
        !contains_name(general_defaults(), n),
{
    lemma_name_facts();
    assert forall|j: int| 0 <= j < general_defaults().len() implies (#[trigger]
        general_defaults()[j].0) != n by {
        if j == 0 {
            assert(general_defaults()[0].0 != n);
        } else if j == 1 {
            assert(general_defaults()[1].0 != n);
        } else if j == 2 {
            assert(general_defaults()[2].0 != n);
        } else if j == 3 {
            assert(general_defaults()[3].0 != n);
        } else if j == 4 {
            assert(general_defaults()[4].0 != n);
        } else {
            assert(general_defaults()[5].0 != n);
        }
    }
}

/// Registry totality: every setting name in the static registry resolves,
/// through `lookup`, to exactly the target that registers it.
#[verifier::rlimit(100)]
pub proof fn lemma_registry_totality(k: int)
    requires
        0 <= k < registry_spec().len(),
    ensures
        lookup_spec(registry_spec()[k].1) == Some(registry_spec()[k].0),
{
    let nv = variables_defaults().len() as int;
    let ng = general_defaults().len() as int;
    if k < nv {
        let n = variables_defaults()[k].0;
        assert(registry_spec()[k] == (CssFile::Variables, variables_defaults()[k].0,
            variables_defaults()[k].1));
        assert(contains_name(variables_defaults(), n));
    } else if k < nv + ng {
        let i = k - nv;
        let n = general_defaults()[i].0;
        assert(registry_spec()[k] == (CssFile::General, general_defaults()[i].0,
            general_defaults()[i].1));
        if i == 0 {
            assert(n == "content-padding"@);
        } else if i == 1 {
            assert(n == "content-main-margin-left"@);
        } else if i == 2 {
            assert(n == "content-main-margin-right"@);
        } else if i == 3 {
            assert(n == "root-font-size"@);
        } else if i == 4 {
            assert(n == "body-font-size"@);
        } else {
            assert(n == "code-font-size"@);
        }
        lemma_outside_variables(n);
        assert(contains_name(general_defaults(), n));
    } else {
        let i = k - nv - ng;
        let n = chrome_defaults()[i].0;
        assert(registry_spec()[k] == (CssFile::Chrome, chrome_defaults()[i].0,
            chrome_defaults()[i].1));
        if i == 0 {
            assert(n == "nav-chapters-max-width"@);
        } else if i == 1 {
            assert(n == "nav-chapters-min-width"@);
        } else if i == 2 {
            assert(n == "chapter-line-height"@);
        } else if i == 3 {
            assert(n == "section-line-height"@);
        } else {
            assert(n == "sidebar-font-size"@);
        }
        lemma_outside_variables(n);
        lemma_outside_general(n);
        assert(contains_name(chrome_defaults(), n));
    }
}


/// Whether `n` occurs among the setting names of the edit list `r`.
fn name_in(r: &Ready, n: &str) -> (b: bool)
    ensures
        b == contains_name(r@, n@),
{
    let mut i: usize = 0;
    while i < r.0.len()
        invariant
            0 <= i <= r.0.len(),
            forall|k: int| 0 <= k < i ==> #[trigger] r@[k].0 != n@,
        decreases r.0.len() - i,
    {
        if str_eq(r.0[i].0.0.as_str(), n) {
            assert(r@[i as int].0 == n@);
            return true;
        }
        i = i + 1;
    }
    false
}

/// The target registered for a setting name, `None` for an unregistered one.
pub fn lookup(item: &str) -> (r: Option<CssFile>)
    ensures
        r == lookup_spec(item@),
{
    if name_in(&Ready::get_defualt(CssFile::Variables), item) {
        Some(CssFile::Variables)
    } else if name_in(&Ready::get_defualt(CssFile::General), item) {
        Some(CssFile::General)
    } else if name_in(&Ready::get_defualt(CssFile::Chrome), item) {
        Some(CssFile::Chrome)
    } else {
        None
    }
}

impl Ready {
    /// The edits as name/value pairs.
    pub fn item_value(&self) -> (r: &Vec<(Item, Value)>)
        ensures
            r.deep_view() == self@,
    {
        &self.0
    }

    /// The fully-specified default edit list of a target, empty for targets
    /// without registered defaults.
    pub fn get_defualt(css: CssFile) -> (r: Ready)
        ensures
            r@ == defaults_spec(&css),
    {
        Ready::from(css)
    }

    /// Build the default table registered for a target directly from the
    /// static registry.
    fn from(css: CssFile) -> (r: Ready)
        ensures
            r@ == defaults_spec(&css),
    {
        let mut v: Vec<(Item, Value)> = Vec::new();
        if matches!(css, CssFile::Variables) {
            push_pair(&mut v, "sidebar-width", "140px");
            push_pair(&mut v, "page-padding", "15px");
            push_pair(&mut v, "content-max-width", "82%");
            push_pair(&mut v, "menu-bar-height", "40px");
            push_pair(&mut v, "pagetoc-width", "13%");
            push_pair(&mut v, "pagetoc-fontsize", "14.5px");
            push_pair(&mut v, "mobile-content-max-width", "98%");
            push_pair(&mut v, "light-links", "#1f1fff");
            push_pair(&mut v, "light-inline-code-color", "#F42C4C");
            push_pair(&mut v, "rust-links", "#2b79a2");
            push_pair(&mut v, "rust-inline-code-color", "#6e6b5e");
            push_pair(&mut v, "navy-links", "#2b79a2");
            push_pair(&mut v, "navy-inline-code-color", "#c5c8c6");
            push_pair(&mut v, "coal-links", "#2b79a2");
            push_pair(&mut v, "coal-inline-code-color", "#c5c8c6");
            push_pair(&mut v, "ayu-links", "#0096cf");
            push_pair(&mut v, "ayu-inline-code-color", "#ffb454");
            proof {
                assert(v.deep_view() =~= variables_defaults());
            }
        } else if matches!(css, CssFile::General) {
            push_pair(&mut v, "content-padding", "0 10px");
            push_pair(&mut v, "content-main-margin-left", "2%");
            push_pair(&mut v, "content-main-margin-right", "2%");
            push_pair(&mut v, "root-font-size", "70%");
            push_pair(&mut v, "body-font-size", "1.5rem");
            push_pair(&mut v, "code-font-size", "0.9em");
            proof {
                assert(v.deep_view() =~= general_defaults());
            }
        } else if matches!(css, CssFile::Chrome) {
            push_pair(&mut v, "nav-chapters-max-width", "auto");
            push_pair(&mut v, "nav-chapters-min-width", "auto");
            push_pair(&mut v, "chapter-line-height", "2em");
            push_pair(&mut v, "section-line-height", "1.5em");
            push_pair(&mut v, "sidebar-font-size", "1em");
            proof {
                assert(v.deep_view() =~= chrome_defaults());
            }
        } else {
            proof {
                assert(v.deep_view() =~= Seq::<(Seq<char>, Seq<char>)>::empty());
            }
        }
        Ready(v)
    }
}

/// Append one name/value pair to an edit list under construction.
fn push_pair(v: &mut Vec<(Item, Value)>, item: &str, value: &str)
    ensures
        final(v).deep_view() == old(v).deep_view().push((item@, value@)),
{
    v.push((Item(String::from_str(item)), Value(String::from_str(value))));
    proof {
        assert(v.deep_view() =~= old(v).deep_view().push((item@, value@)));
    }
}

} // verus!
