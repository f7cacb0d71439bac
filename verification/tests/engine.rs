//! The patch engine and the resolver on concrete inputs: the replacement
//! and insertion primitives, the per-target pipelines, the plan, and the
//! second-run behaviour of the guards.

use mdbook_theme::config::{run, ConfigValue};
use mdbook_theme::content::Content;
use mdbook_theme::registry::{CssFile, Item, Ready, Value};
use mdbook_theme::theme::Theme;
use mdbook_theme::Error;

fn content_of(s: &str) -> Content {
    Content::from(String::from(s))
}

fn ready_of(pairs: &[(&str, &str)]) -> Ready {
    let mut v: Vec<(Item, Value)> = Vec::new();
    for (i, w) in pairs.iter() {
        v.push((Item(String::from(*i)), Value(String::from(*w))));
    }
    Ready(v)
}

#[test]
fn direct_replace_edits_only_the_span() {
    let mut c = content_of("width: 10px;");
    assert!(c.replace("width", "20px").is_ok());
    assert_eq!(c.get(), "width: 20px;");
}

#[test]
fn direct_replace_first_occurrence_only() {
    let mut c = content_of("a: 1; b: 2; a: 3;");
    assert!(c.replace("a", "9").is_ok());
    assert_eq!(c.get(), "a: 9; b: 2; a: 3;");
}

#[test]
fn direct_replace_missing_item_fails_unchanged() {
    let mut c = content_of("width: 10px;");
    assert_eq!(c.replace("height", "1"), Err(Error::StrNotFound));
    assert_eq!(c.get(), "width: 10px;");
}

#[test]
fn direct_replace_missing_terminator_fails_unchanged() {
    let mut c = content_of("width: 10px");
    assert_eq!(c.replace("width", "20px"), Err(Error::StrNotFound));
    assert_eq!(c.get(), "width: 10px");
}

#[test]
fn insert_splices_before_second_anchor() {
    let mut c = content_of("A{B}");
    assert!(c.insert("X", "A", "}").is_ok());
    assert_eq!(c.get(), "A{BX}");
}

#[test]
fn insert_missing_anchor_fails_unchanged() {
    let mut c = content_of("A{B}");
    assert_eq!(c.insert("X", "Z", "}"), Err(Error::StrNotFound));
    assert_eq!(c.get(), "A{B}");
}

#[test]
fn fore_replace_respects_the_anchor() {
    let mut c = content_of("x: 0;\n.side {\n    x: 1;\n}\n");
    assert!(c.fore_replace("\n.side {", "x", "9").is_ok());
    assert_eq!(c.get(), "x: 0;\n.side {\n    x: 9;\n}\n");
}

#[test]
fn fore_arg_finds_the_selector_scope() {
    let mut c = content_of("\n.sidebar {\n    font-size: 1em;\n}\n");
    c.fore_arg("sidebar-font-size", "2em");
    assert_eq!(c.get(), "\n.sidebar {\n    font-size: 2em;\n}\n");
}

#[test]
fn fore_arg_prefers_the_longer_prefix() {
    let mut c = content_of("\n.nav-chapters {\n    max-width: auto;\n}\n");
    c.fore_arg("nav-chapters-max-width", "50px");
    assert_eq!(c.get(), "\n.nav-chapters {\n    max-width: 50px;\n}\n");
}

#[test]
fn fore_arg_exhaustion_drops_the_edit() {
    let mut c = content_of("nothing to see here");
    c.fore_arg("light-links", "#123456");
    assert_eq!(c.get(), "nothing to see here");
}

#[test]
fn fore_arg_single_segment_is_dropped() {
    let mut c = content_of("plain: 1;");
    c.fore_arg("plain", "2");
    assert_eq!(c.get(), "plain: 1;");
}

#[test]
fn variables_replaces_a_known_setting() {
    let mut c = content_of(":root {\n    --sidebar-width: 140px;\n}\n/* Themes */");
    c.variables("sidebar-width", "200px");
    assert_eq!(c.get(), ":root {\n    --sidebar-width: 200px;\n}\n/* Themes */");
}

#[test]
fn variables_inserts_an_unknown_setting_into_root() {
    let mut c = content_of(":root {\n}\n");
    c.variables("my-var", "1");
    assert_eq!(c.get(), ":root {\n\n    --my-var: 1;\n}\n");
}

#[test]
fn variables_mobile_inserts_the_media_block_once() {
    let base = ":root {\n}\n/* Themes */";
    let mut c = content_of(base);
    c.variables("mobile-content-max-width", "98%");
    let once = String::from(c.get());
    assert!(once.contains("@media only screen and (max-width:1439px)"));
    assert!(once.contains("--content-max-width: 98%;"));
    c.variables("mobile-content-max-width", "98%");
    assert_eq!(c.get(), once.as_str());
}

#[test]
fn variables_twice_is_idempotent_for_replacements() {
    let mut c = content_of(":root {\n    --page-padding: 15px;\n}\n");
    c.variables("page-padding", "25px");
    let once = String::from(c.get());
    c.variables("page-padding", "25px");
    assert_eq!(c.get(), once.as_str());
}

#[test]
fn index_pipeline_inserts_the_pagetoc_block() {
    let t = Theme::from(CssFile::Index, Ready::default());
    let done = t.process(false, content_of("<main>\n{{{ content }}}</main>"));
    let expect = "<main>\n <!-- Page table of contents -->\n                        <div class=\"sidetoc\"><nav class=\"pagetoc\"></nav></div>\n\n                        {{{ content }}}</main>";
    assert_eq!(done.content.get(), expect);
    assert!(done.needs_write(false));
}

#[test]
fn index_second_run_writes_nothing() {
    let first = Theme::from(CssFile::Index, Ready::default());
    let first = first.process(false, content_of("<main>\n{{{ content }}}</main>"));
    let written = String::from(first.content.get());
    // The second run finds the file on disk and loads it as the baseline.
    let second = Theme::from(CssFile::Index, Ready::default());
    let second = second.process(true, content_of(written.as_str()));
    assert_eq!(second.content.get(), written.as_str());
    assert!(!second.needs_write(true));
}

#[test]
fn variables_pipeline_second_run_writes_nothing() {
    let baseline = ":root {\n    --sidebar-width: 140px;\n    --pagetoc-width: 13%;\n}\n/* Themes */";
    let edits = [("sidebar-width", "300px"), ("pagetoc-width", "20%")];
    let first = Theme::from(CssFile::Variables, ready_of(&edits));
    let first = first.process(false, content_of(baseline));
    assert!(first.needs_write(false));
    let written = String::from(first.content.get());
    let second = Theme::from(CssFile::Variables, ready_of(&edits));
    let second = second.process(true, content_of(written.as_str()));
    assert_eq!(second.content.get(), written.as_str());
    assert!(!second.needs_write(true));
}

#[test]
fn asset_target_written_only_when_absent() {
    let t = Theme::from(CssFile::PagetocJs, Ready::default());
    let done = t.process(false, content_of("window.addEventListener"));
    assert_eq!(done.content.get(), "window.addEventListener");
    assert!(done.needs_write(false));
    let again = Theme::from(CssFile::PagetocJs, Ready::default());
    let again = again.process(true, content_of("window.addEventListener"));
    assert!(!again.needs_write(true));
}

#[test]
fn passthrough_target_keeps_content() {
    let t = Theme::from(CssFile::Custom(String::from("extra.css")), Ready::default());
    let done = t.process(true, content_of("whatever { }"));
    assert_eq!(done.content.get(), "whatever { }");
    assert!(!done.needs_write(true));
}

fn table(pairs: &[(&str, ConfigValue)]) -> Vec<(String, ConfigValue)> {
    let mut v: Vec<(String, ConfigValue)> = Vec::new();
    for (k, w) in pairs.iter() {
        v.push((String::from(*k), w.clone()));
    }
    v
}

#[test]
fn disable_short_circuits_everything() {
    let input = table(&[
        ("turn-off", ConfigValue::Truth(true)),
        ("pagetoc", ConfigValue::Truth(true)),
        ("sidebar-width", ConfigValue::Text(String::from("200px"))),
    ]);
    let plan = run(&input);
    assert!(plan.disabled);
    assert_eq!(plan.jobs.len(), 0);
}

#[test]
fn disable_key_false_does_not_disable() {
    let input = table(&[
        ("turn-off", ConfigValue::Truth(false)),
        ("sidebar-width", ConfigValue::Text(String::from("200px"))),
    ]);
    let plan = run(&input);
    assert!(!plan.disabled);
    assert_eq!(plan.jobs.len(), 1);
}

#[test]
fn feature_alone_expands_to_the_fixed_bundle() {
    let input = table(&[("pagetoc", ConfigValue::Truth(true))]);
    let plan = run(&input);
    assert!(!plan.disabled);
    assert_eq!(plan.jobs.len(), 6);
    assert_eq!(plan.jobs[0].cssfile, CssFile::Variables);
    assert_eq!(plan.jobs[1].cssfile, CssFile::Index);
    assert_eq!(plan.jobs[2].cssfile, CssFile::PagetocJs);
    assert_eq!(plan.jobs[3].cssfile, CssFile::PagetocCss);
    assert_eq!(plan.jobs[4].cssfile, CssFile::General);
    assert_eq!(plan.jobs[5].cssfile, CssFile::Chrome);
    assert_eq!(plan.jobs[0].ready.item_value().len(), 17);
    assert_eq!(plan.jobs[1].ready.item_value().len(), 0);
    assert_eq!(plan.jobs[2].ready.item_value().len(), 0);
    assert_eq!(plan.jobs[3].ready.item_value().len(), 0);
    assert_eq!(plan.jobs[4].ready.item_value().len(), 6);
    assert_eq!(plan.jobs[5].ready.item_value().len(), 5);
    assert_eq!(plan.jobs[0].ready.item_value()[0].0.get(), "sidebar-width");
    assert_eq!(plan.jobs[0].ready.item_value()[0].1.get(), "140px");
    assert_eq!(plan.jobs[4].ready.item_value()[0].0.get(), "content-padding");
    assert_eq!(plan.jobs[5].ready.item_value()[4].0.get(), "sidebar-font-size");
}

#[test]
fn generic_items_group_by_target_in_input_order() {
    let input = table(&[
        ("sidebar-font-size", ConfigValue::Text(String::from("2em"))),
        ("unknown-setting", ConfigValue::Text(String::from("1"))),
        ("sidebar-width", ConfigValue::Text(String::from("200px"))),
        ("light-links", ConfigValue::Text(String::from("#123456"))),
    ]);
    let plan = run(&input);
    assert!(!plan.disabled);
    assert_eq!(plan.jobs.len(), 2);
    assert_eq!(plan.jobs[0].cssfile, CssFile::Variables);
    let v = plan.jobs[0].ready.item_value();
    assert_eq!(v.len(), 2);
    assert_eq!(v[0].0.get(), "sidebar-width");
    assert_eq!(v[0].1.get(), "200px");
    assert_eq!(v[1].0.get(), "light-links");
    assert_eq!(plan.jobs[1].cssfile, CssFile::Chrome);
    let c = plan.jobs[1].ready.item_value();
    assert_eq!(c.len(), 1);
    assert_eq!(c[0].0.get(), "sidebar-font-size");
}

#[test]
fn feature_and_generic_items_combine() {
    let input = table(&[
        ("pagetoc", ConfigValue::Truth(true)),
        ("sidebar-width", ConfigValue::Text(String::from("200px"))),
    ]);
    let plan = run(&input);
    assert_eq!(plan.jobs.len(), 7);
    assert_eq!(plan.jobs[6].cssfile, CssFile::Variables);
    assert_eq!(plan.jobs[6].ready.item_value().len(), 1);
}

#[test]
fn boolean_valued_generic_item_is_dropped() {
    let input = table(&[("sidebar-width", ConfigValue::Truth(true))]);
    let plan = run(&input);
    assert_eq!(plan.jobs.len(), 0);
}

#[test]
fn full_run_is_idempotent_per_target() {
    // Resolve a mixed configuration, process every planned job against a
    // plausible baseline, then rerun against the files the first run
    // produced: no target wants a second write.
    let input = table(&[
        ("sidebar-width", ConfigValue::Text(String::from("250px"))),
        ("sidebar-font-size", ConfigValue::Text(String::from("2em"))),
    ]);
    let baselines = [
        (
            CssFile::Variables,
            ":root {\n    --sidebar-width: 140px;\n}\n/* Themes */",
        ),
        (CssFile::Chrome, "\n.sidebar {\n    font-size: 1em;\n}\n"),
    ];
    let plan = run(&input);
    assert_eq!(plan.jobs.len(), 2);
    for job in plan.jobs.into_iter() {
        let mut base = "";
        for (css, b) in baselines.iter() {
            if *css == job.cssfile {
                base = b;
            }
        }
        let ready2 = {
            let mut v: Vec<(Item, Value)> = Vec::new();
            for (i, w) in job.ready.item_value().iter() {
                v.push((
                    Item(String::from(i.get())),
                    Value(String::from(w.get())),
                ));
            }
            Ready(v)
        };
        let first = Theme::from(job.cssfile.clone(), job.ready);
        let first = first.process(false, content_of(base));
        assert!(first.needs_write(false));
        let written = String::from(first.content.get());
        let second = Theme::from(job.cssfile, ready2);
        let second = second.process(true, content_of(written.as_str()));
        assert_eq!(second.content.get(), written.as_str());
        assert!(!second.needs_write(true));
    }
}
