//! The resolver: turn the user's settings table into a run plan — the
//! disable short-circuit, the feature expansion, and the grouping of the
//! remaining settings by the target the registry maps them to.
//!
//! The caller parses its configuration document into the plain table this
//! module takes, and afterwards drives each planned job through
//! [`crate::theme::Theme`], loading and writing files as the plan and the
//! guard direct.

use vstd::prelude::*;
use crate::registry::{CssFile, Item, Ready, Value, lookup, lookup_spec};
use crate::theme::{Job, Theme, pagetoc_jobs};
use crate::search::str_eq;

verus! {

/// A setting's value: the two reserved control settings carry booleans,
/// ordinary settings carry text.
#[derive(Debug)]
pub enum ConfigValue {
    Truth(bool),
    Text(String),
}

impl Clone for ConfigValue {
    fn clone(&self) -> (r: ConfigValue)
        ensures
            r == *self,
    {
        match self {
            ConfigValue::Truth(b) => ConfigValue::Truth(*b),
            ConfigValue::Text(s) => ConfigValue::Text(s.clone()),
        }
    }
}

/// A control value counts as set only when it is a boolean and true.
pub open spec fn truthy(v: ConfigValue) -> bool {
    match v {
        ConfigValue::Truth(b) => b,
        ConfigValue::Text(_) => false,
    }
}

/// The table holds `key` with a truthy value.
pub open spec fn key_truthy(input: Seq<(String, ConfigValue)>, key: Seq<char>) -> bool {
    exists|i: int| 0 <= i < input.len() && (#[trigger] input[i]).0@ == key && truthy(input[i].1)
}

/// The reserved disable key is set: the whole run is a no-op.
pub open spec fn disabled_spec(input: Seq<(String, ConfigValue)>) -> bool {
    key_truthy(input, "turn-off"@)
}

/// The reserved feature key is set: the fixed bundle of feature targets is
/// scheduled before the generic settings.
pub open spec fn feature_spec(input: Seq<(String, ConfigValue)>) -> bool {
    key_truthy(input, "pagetoc"@)
}

/// An entry that enters generic resolution: not a reserved key, and
/// carrying text.
pub open spec fn is_generic(e: (String, ConfigValue)) -> bool {
    e.0@ != "turn-off"@ && e.0@ != "pagetoc"@ && e.1 is Text
}

/// The text of a setting value.
pub open spec fn text_of(v: ConfigValue) -> Seq<char> {
    match v {
        ConfigValue::Text(s) => s@,
        ConfigValue::Truth(_) => Seq::empty(),
    }
}

/// The edits resolved for one target: the generic entries the registry
/// maps to it, in input order.
pub open spec fn items_for(input: Seq<(String, ConfigValue)>, css: CssFile) -> Seq<
    (Seq<char>, Seq<char>),
>
    decreases input.len(),
{
    if input.len() == 0 {
        Seq::empty()
    } else {
        let rest = items_for(input.drop_last(), css);
        let e = input.last();
        if is_generic(e) && lookup_spec(e.0@) == Some(css) {
            rest.push((e.0@, text_of(e.1)))
        } else {
            rest
        }
    }
}

/// The generic jobs of a plan: one per target that resolved a non-empty
/// edit list, in the registry's target order.
pub open spec fn generic_jobs(input: Seq<(String, ConfigValue)>) -> Seq<
    (CssFile, Seq<(Seq<char>, Seq<char>)>),
> {
    let v = items_for(input, CssFile::Variables);
    let g = items_for(input, CssFile::General);
    let c = items_for(input, CssFile::Chrome);
    (if v.len() > 0 {
        seq![(CssFile::Variables, v)]
    } else {
        Seq::empty()
    }) + (if g.len() > 0 {
        seq![(CssFile::General, g)]
    } else {
        Seq::empty()
    }) + (if c.len() > 0 {
        seq![(CssFile::Chrome, c)]
    } else {
        Seq::empty()
    })
}

/// The whole plan: nothing when disabled; otherwise the feature bundle (in
/// its fixed order, when the feature key is set) followed by the generic
/// jobs.
pub open spec fn jobs_spec(input: Seq<(String, ConfigValue)>) -> Seq<
    (CssFile, Seq<(Seq<char>, Seq<char>)>),
> {
    if disabled_spec(input) {
        Seq::empty()
    } else {
        (if feature_spec(input) {
            pagetoc_jobs()
        } else {
            Seq::empty()
        }) + generic_jobs(input)
    }
}

/// What one invocation will do: either nothing (disabled), or the listed
/// jobs in order.
#[derive(Debug)]
pub struct RunPlan {
    pub disabled: bool,
    pub jobs: Vec<Job>,
}

/// Whether the table holds `key` with a truthy value.
fn key_truthy_exec(input: &Vec<(String, ConfigValue)>, key: &str) -> (b: bool)
    ensures
        b == key_truthy(input@, key@),
{
    let mut i: usize = 0;
    while i < input.len()
        invariant
            0 <= i <= input@.len(),
            forall|k: int| 0 <= k < i ==> !((#[trigger] input@[k]).0@ == key@ && truthy(
                input@[k].1)),
        decreases input@.len() - i,
    {
        if str_eq(input[i].0.as_str(), key) {
            match &input[i].1 {
                ConfigValue::Truth(b) => {
                    if *b {
                        assert(input@[i as int].0@ == key@ && truthy(input@[i as int].1));
                        return true;
                    }
                },
                ConfigValue::Text(_) => {},
            }
        }
        i = i + 1;
    }
    false
}

/// Collect the generic entries the registry maps to `css`, in input order.
fn collect_items(input: &Vec<(String, ConfigValue)>, css: &CssFile) -> (r: Ready)
    requires
        css is Variables || css is General || css is Chrome,
    ensures
        r@ == items_for(input@, *css),
{
    let mut v: Vec<(Item, Value)> = Vec::new();
    let mut i: usize = 0;
    while i < input.len()
        invariant
            0 <= i <= input@.len(),
            css is Variables || css is General || css is Chrome,
            v.deep_view() == items_for(input@.take(i as int), *css),
        decreases input@.len() - i,
    {
        proof {
            assert(input@.take(i as int + 1).drop_last() =~= input@.take(i as int));
            assert(input@.take(i as int + 1).last() == input@[i as int]);
        }
        let e = &input[i];
        let keep: bool = !str_eq(e.0.as_str(), "turn-off") && !str_eq(e.0.as_str(), "pagetoc");
        if keep {
            match &e.1 {
                ConfigValue::Text(s) => {
                    match lookup(e.0.as_str()) {
                        Some(c) => {
                            if c == *css {
                                v.push((Item(e.0.clone()), Value(s.clone())));
                                proof {
                                    assert(v.deep_view() =~= items_for(input@.take(i as int + 1),
                                        *css));
                                }
                            } else {
                                proof {
                                    assert(lookup_spec(input@[i as int].0@) != Some(*css));
                                }
                            }
                        },
                        None => {},
                    }
                },
                ConfigValue::Truth(_) => {},
            }
        }
        i = i + 1;
    }
    proof {
        assert(input@.take(input@.len() as int) =~= input@);
    }
    Ready(v)
}

/// Append the generic job of one target, when it resolved any edits.
fn push_target_job(jobs: &mut Vec<Job>, input: &Vec<(String, ConfigValue)>, css: CssFile)
    requires
        css is Variables || css is General || css is Chrome,
    ensures
        final(jobs).deep_view() == old(jobs).deep_view() + (if items_for(input@, css).len() > 0 {
            seq![(css, items_for(input@, css))]
        } else {
            Seq::<(CssFile, Seq<(Seq<char>, Seq<char>)>)>::empty()
        }),
{
    let ready = collect_items(input, &css);
    if ready.0.len() > 0 {
        let ghost cssv = css;
        jobs.push(Job { cssfile: css, ready });
        proof {
            assert(jobs.deep_view() =~= old(jobs).deep_view() + seq![(cssv, items_for(input@,
                cssv))]);
        }
    } else {
        proof {
            assert(jobs.deep_view() =~= old(jobs).deep_view()
                + Seq::<(CssFile, Seq<(Seq<char>, Seq<char>)>)>::empty());
        }
    }
}

/// Resolve a settings table into the plan of this invocation.
///
/// The disable key wins over everything; the feature bundle comes before
/// the generic jobs; settings outside the registry, and non-text values of
/// unreserved keys, are dropped silently.
pub fn run(input: &Vec<(String, ConfigValue)>) -> (r: RunPlan)
    ensures
        r.disabled == disabled_spec(input@),
        r.jobs.deep_view() == jobs_spec(input@),
{
    let disabled = key_truthy_exec(input, "turn-off");
    if disabled {
        let r = RunPlan { disabled: true, jobs: Vec::new() };
        proof {
            assert(r.jobs.deep_view() =~= jobs_spec(input@));
        }
        return r;
    }
    let feature = key_truthy_exec(input, "pagetoc");
    let mut jobs: Vec<Job> = if feature {
        Theme::pagetoc()
    } else {
        Vec::new()
    };
    proof {
        assert(jobs.deep_view() =~= (if feature_spec(input@) {
            pagetoc_jobs()
        } else {
            Seq::<(CssFile, Seq<(Seq<char>, Seq<char>)>)>::empty()
        }));
    }
    push_target_job(&mut jobs, input, CssFile::Variables);
    push_target_job(&mut jobs, input, CssFile::General);
    push_target_job(&mut jobs, input, CssFile::Chrome);
    proof {
        assert(jobs.deep_view() =~= jobs_spec(input@));
    }
    RunPlan { disabled: false, jobs }
}

/// Disable short-circuit: a truthy disable key yields an empty plan — no
/// target is processed and nothing is written, whatever other keys are
/// present.
pub proof fn lemma_disable_short_circuit(input: Seq<(String, ConfigValue)>)
    requires
        disabled_spec(input),
    ensures
        jobs_spec(input) == Seq::<(CssFile, Seq<(Seq<char>, Seq<char>)>)>::empty(),
{
}

/// No entry of the table enters generic resolution: the resolved edit list
/// of every target is empty.
proof fn lemma_items_for_empty(input: Seq<(String, ConfigValue)>, css: CssFile)
    requires
        forall|i: int| 0 <= i < input.len() ==> !is_generic(#[trigger] input[i]),
    ensures
        items_for(input, css) == Seq::<(Seq<char>, Seq<char>)>::empty(),
    decreases input.len(),
{
    if input.len() > 0 {
        lemma_items_for_empty(input.drop_last(), css);
    }
}

/// Feature expansion completeness: a table that sets the feature key and
/// holds no other setting expands into exactly the registry's default edit
/// set for each feature-associated target, in the fixed processing order.
pub proof fn lemma_feature_expansion(input: Seq<(String, ConfigValue)>)
    requires
        feature_spec(input),
        forall|i: int| 0 <= i < input.len() ==> (#[trigger] input[i]).0@ == "pagetoc"@,
    ensures
        jobs_spec(input) == pagetoc_jobs(),
{
    reveal_strlit("pagetoc");
    reveal_strlit("turn-off");
    assert("pagetoc"@.len() == 7);
    assert("turn-off"@.len() == 8);
    assert(!disabled_spec(input));
    assert(forall|i: int| 0 <= i < input.len() ==> !is_generic(#[trigger] input[i]));
    lemma_items_for_empty(input, CssFile::Variables);
    lemma_items_for_empty(input, CssFile::General);
    lemma_items_for_empty(input, CssFile::Chrome);
    assert(jobs_spec(input) =~= pagetoc_jobs());
}

/// Every generic entry the registry maps to a target appears in that
/// target's resolved edit list.
pub proof fn lemma_matched_items_kept(input: Seq<(String, ConfigValue)>, css: CssFile, i: int)
    requires
        0 <= i < input.len(),
        is_generic(input[i]),
        lookup_spec(input[i].0@) == Some(css),
    ensures
        exists|j: int| 0 <= j < items_for(input, css).len() && #[trigger] items_for(input, css)[j]
            == (input[i].0@, text_of(input[i].1)),
    decreases input.len(),
{
    let rest = items_for(input.drop_last(), css);
    if i == input.len() - 1 {
        assert(items_for(input, css)[rest.len() as int] == (input[i].0@, text_of(input[i].1)));
    } else {
        lemma_matched_items_kept(input.drop_last(), css, i);
        let j = choose|j: int| 0 <= j < rest.len() && #[trigger] rest[j] == (
            input.drop_last()[i].0@,
            text_of(input.drop_last()[i].1),
        );
        assert(items_for(input, css)[j] == (input[i].0@, text_of(input[i].1)));
    }
}

/// Unregistered settings are dropped without error, and a registered one
/// is routed only to the target that registers it: every entry of a
/// target's resolved edit list resolves to that target.
pub proof fn lemma_unknown_items_dropped(input: Seq<(String, ConfigValue)>, css: CssFile, j: int)
    requires
        0 <= j < items_for(input, css).len(),
    ensures
        lookup_spec(items_for(input, css)[j].0) == Some(css),
    decreases input.len(),
{
    if input.len() > 0 {
        let rest = items_for(input.drop_last(), css);
        if j < rest.len() {
            lemma_unknown_items_dropped(input.drop_last(), css, j);
        }
    }
}

} // verus!
