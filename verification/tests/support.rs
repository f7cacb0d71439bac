//! The registry, the editor-theme backend, and the small preprocessor and
//! renderer helpers on concrete inputs.

use mdbook_theme::ace::Ace;
use mdbook_theme::ace::find;
use mdbook_theme::count_words;
use mdbook_theme::registry::{lookup, CssFile, Ready};
use mdbook_theme::{Error, Nop, PreTheme, WordcountConfig};

#[test]
fn lookup_routes_registered_names() {
    assert_eq!(lookup("sidebar-width"), Some(CssFile::Variables));
    assert_eq!(lookup("mobile-content-max-width"), Some(CssFile::Variables));
    assert_eq!(lookup("ayu-inline-code-color"), Some(CssFile::Variables));
    assert_eq!(lookup("root-font-size"), Some(CssFile::General));
    assert_eq!(lookup("content-padding"), Some(CssFile::General));
    assert_eq!(lookup("nav-chapters-max-width"), Some(CssFile::Chrome));
    assert_eq!(lookup("sidebar-font-size"), Some(CssFile::Chrome));
}

#[test]
fn lookup_rejects_unregistered_names() {
    assert_eq!(lookup("sidebar"), None);
    assert_eq!(lookup(""), None);
    assert_eq!(lookup("turn-off"), None);
    assert_eq!(lookup("pagetoc"), None);
}

#[test]
fn filenames_and_variants_round_trip() {
    let six = [
        CssFile::Variables,
        CssFile::Index,
        CssFile::PagetocJs,
        CssFile::PagetocCss,
        CssFile::General,
        CssFile::Chrome,
    ];
    for css in six.into_iter() {
        let name = css.filename();
        assert_eq!(CssFile::variant(name.as_str()), css);
    }
    assert_eq!(CssFile::Variables.filename().as_str(), "css/variables.css");
    assert_eq!(
        CssFile::Custom(String::from("mine.css")).filename().as_str(),
        "mine.css"
    );
}

#[test]
fn default_tables_have_the_registered_shape() {
    assert_eq!(Ready::get_defualt(CssFile::Variables).item_value().len(), 17);
    assert_eq!(Ready::get_defualt(CssFile::General).item_value().len(), 6);
    assert_eq!(Ready::get_defualt(CssFile::Chrome).item_value().len(), 5);
    assert_eq!(Ready::get_defualt(CssFile::Index).item_value().len(), 0);
    assert_eq!(Ready::get_defualt(CssFile::PagetocJs).item_value().len(), 0);
    let g = Ready::get_defualt(CssFile::General);
    assert_eq!(g.item_value()[3].0.get(), "root-font-size");
    assert_eq!(g.item_value()[3].1.get(), "70%");
}

#[test]
fn quote_span_finder_locates_the_value() {
    let content = "a cssClass=\"old\" b cssText=\"t\" c";
    let (p1, p2) = find(content, "cssClass=\"").unwrap();
    assert_eq!(&content[p1..p2], "old");
    let (q1, q2) = find(content, "cssText=\"").unwrap();
    assert_eq!(&content[q1..q2], "t");
    assert_eq!(find(content, "cssFont=\""), Err(Error::StrNotFound));
}

#[test]
fn ace_write_patches_both_spans() {
    let ace = Ace::default();
    let content = "a cssClass=\"old\" b cssText=\"t\" c";
    let patched = ace.write(content, "ace-new", "body { }").unwrap();
    assert_eq!(
        patched.as_str(),
        "a cssClass=\"ace-new\" b cssText=\"body { }\" c"
    );
}

#[test]
fn ace_write_without_markers_fails() {
    let ace = Ace::default();
    assert_eq!(
        ace.write("nothing here", "x", "y"),
        Err(Error::StrNotFound)
    );
}

#[test]
fn css_class_text_extracts_the_first_class() {
    let ace = Ace::default();
    let css = ".ace-tm .ace_gutter {\nbackground: \"#f0f0f0\";\n}";
    let (class, text) = ace.css_class_text(css).unwrap();
    assert_eq!(class.as_str(), "ace-tm");
    assert_eq!(
        text.as_str(),
        ".ace-tm .ace_gutter { background:  #f0f0f0 ; }"
    );
}

#[test]
fn css_class_text_without_class_fails() {
    let ace = Ace::default();
    assert_eq!(ace.css_class_text("p { }"), Err(Error::StrNotFound));
}

#[test]
fn default_stylesheet_matched_by_theme_name() {
    let mut ace = Ace::default();
    ace.theme_dark = String::from("monokai");
    ace.theme_white = String::from("tomorrow");
    assert_eq!(
        ace.defult_css(true).unwrap().as_str(),
        "./ace/theme/monokai.css"
    );
    assert_eq!(
        ace.defult_css(false).unwrap().as_str(),
        "./ace/theme/tomorrow.css"
    );
}

#[test]
fn default_stylesheet_unmatched_name_gives_none() {
    let mut ace = Ace::default();
    ace.theme_dark = String::from("no-such-theme");
    assert_eq!(ace.defult_css(true), None);
}

#[test]
fn empty_theme_name_matches_the_first_entry() {
    let ace = Ace::default();
    assert_eq!(
        ace.defult_css(true).unwrap().as_str(),
        "./ace/theme/ambiance.css"
    );
}

#[test]
fn word_counts() {
    assert_eq!(count_words(""), 0);
    assert_eq!(count_words("   \n\t "), 0);
    assert_eq!(count_words("one"), 1);
    assert_eq!(count_words("hello  world\nagain"), 3);
    assert_eq!(count_words(" leading and trailing "), 3);
}

#[test]
fn preprocessor_names_and_renderers() {
    assert_eq!(PreTheme.name(), "theme");
    assert!(PreTheme.supports_renderer("html"));
    assert!(!PreTheme.supports_renderer("epub"));
    assert_eq!(Nop.name(), "theme-pre");
    assert!(Nop.supports_renderer("html"));
    assert!(!Nop.supports_renderer("markdown"));
}

#[test]
fn wordcount_config_defaults() {
    let cfg = WordcountConfig::default();
    assert!(cfg.ignores.is_empty());
    assert!(!cfg.deny_odds);
}
