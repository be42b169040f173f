//! The last steps of the setup wizard: which selected provider runs a model,
//! which configured models can have their weights pulled, and the summary
//! shown at the end.
use vstd::prelude::*;

use crate::commands::discovery::Recommendation;
use crate::config::Config;
use crate::config::ModelConfig;
use crate::config::ProviderConfig;
use crate::text::join2;
use crate::text::joined;
use crate::text::str_eq;
use crate::text::str_join;
use crate::text::string_views;

verus! {

broadcast use crate::text::group_views;

/*-- the provider of a model -------------------------------------------------------*/

/// The first of `candidates` that is among `selected`.
pub open spec fn first_selected(candidates: Seq<Seq<char>>, selected: Seq<Seq<char>>) -> Option<Seq<char>>
    decreases candidates.len(),
{
    if candidates.len() == 0 {
        None
    } else if selected.contains(candidates[0]) {
        Some(candidates[0])
    } else {
        first_selected(candidates.drop_first(), selected)
    }
}

/// What one recommendation offers for model `id`: when it recommends that
/// model, the first of the providers able to run it that was selected.
pub open spec fn offered_runner(r: Recommendation, id: Seq<char>, selected: Seq<Seq<char>>) -> Option<Seq<char>> {
    match r {
        Recommendation::Model { model_id, can_run_by, .. } => if model_id@ == id {
            first_selected(string_views(can_run_by@), selected)
        } else {
            None
        },
        _ => None,
    }
}

/// The provider that runs model `id`: the first offer among `recs`, in order.
pub open spec fn runner_for_model(recs: Seq<Recommendation>, id: Seq<char>, selected: Seq<Seq<char>>) -> Option<Seq<char>>
    decreases recs.len(),
{
    if recs.len() == 0 {
        None
    } else {
        match offered_runner(recs[0], id, selected) {
            Some(p) => Some(p),
            None => runner_for_model(recs.drop_first(), id, selected),
        }
    }
}

fn first_selected_exec(candidates: &Vec<String>, selected: &Vec<String>) -> (r: Option<String>)
    ensures
        match r {
            Some(p) => first_selected(string_views(candidates@), string_views(selected@)) == Some(p@),
            None => first_selected(string_views(candidates@), string_views(selected@)) is None,
        },
{
    let ghost cs = string_views(candidates@);
    let ghost sel = string_views(selected@);
    let mut i: usize = 0;
    assert(cs.skip(0) =~= cs);
    while i < candidates.len()
        invariant
            i <= candidates@.len(),
            cs == string_views(candidates@),
            sel == string_views(selected@),
            first_selected(cs, sel) == first_selected(cs.skip(i as int), sel),
        decreases candidates@.len() - i,
    {
        assert(cs.skip(i as int).drop_first() =~= cs.skip(i + 1));
        if crate::text::contains_string(selected, candidates[i].as_str()) {
            return Some(crate::text::owned(candidates[i].as_str()));
        }
        i += 1;
    }
    None
}

/// The selected provider that runs model `model_id`: the first one, among the
/// providers able to run it, of the first recommendation of that model that
/// names a selected one.
pub fn find_provider_for_model(model_id: &str, selected_providers: &Vec<String>, recs: &Vec<Recommendation>) -> (r:
    Option<String>)
    ensures
        match r {
            Some(p) => runner_for_model(recs@, model_id@, string_views(selected_providers@)) == Some(p@),
            None => runner_for_model(recs@, model_id@, string_views(selected_providers@)) is None,
        },
{
    let ghost sel = string_views(selected_providers@);
    let mut i: usize = 0;
    assert(recs@.skip(0) =~= recs@);
    while i < recs.len()
        invariant
            i <= recs@.len(),
            sel == string_views(selected_providers@),
            runner_for_model(recs@, model_id@, sel) == runner_for_model(recs@.skip(i as int), model_id@, sel),
        decreases recs@.len() - i,
    {
        assert(recs@.skip(i as int).drop_first() =~= recs@.skip(i + 1));
        assert(recs@.skip(i as int)[0] == recs@[i as int]);
        match &recs[i] {
            Recommendation::Model { model_id: rec_id, can_run_by, .. } => {
                if str_eq(rec_id.as_str(), model_id) {
                    let found = first_selected_exec(can_run_by, selected_providers);
                    if found.is_some() {
                        return found;
                    }
                }
            },
            _ => {},
        }
        i += 1;
    }
    None
}

/*-- what can be pulled ------------------------------------------------------------*/

/// A model that can have its weights pulled: the model id, the id of the
/// configured provider it is set to use, and that provider's type.
pub struct Pullable {
    pub model_id: String,
    pub provider_id: String,
    pub provider_type: String,
}

/// The pull entry for model `id`, when it is configured with a provider that is configured too.
pub open spec fn pull_entry(
    models: Map<Seq<char>, ModelConfig>,
    providers: Map<Seq<char>, ProviderConfig>,
    id: Seq<char>,
) -> Option<(Seq<char>, Seq<char>, Seq<char>)> {
    if models.contains_key(id) {
        match models[id].provider_id {
            Some(p) => if providers.contains_key(p@) {
                Some((id, p@, providers[p@].provider_type@))
            } else {
                None
            },
            None => None,
        }
    } else {
        None
    }
}

/// The pull entries of the models of `selected` that have one, in order.
pub open spec fn pull_entries(
    models: Map<Seq<char>, ModelConfig>,
    providers: Map<Seq<char>, ProviderConfig>,
    selected: Seq<Seq<char>>,
) -> Seq<(Seq<char>, Seq<char>, Seq<char>)>
    decreases selected.len(),
{
    if selected.len() == 0 {
        Seq::empty()
    } else {
        let rest = pull_entries(models, providers, selected.drop_last());
        match pull_entry(models, providers, selected.last()) {
            Some(e) => rest.push(e),
            None => rest,
        }
    }
}

/// The views of pull entries.
pub open spec fn pullable_views(v: Seq<Pullable>) -> Seq<(Seq<char>, Seq<char>, Seq<char>)> {
    Seq::new(v.len(), |i: int| (v[i].model_id@, v[i].provider_id@, v[i].provider_type@))
}

/// The selected models whose weights can be pulled: those configured with a
/// provider that is configured too, in the order given.
pub fn pullable_models(config: &Config, selected_models: &Vec<String>) -> (r: Vec<Pullable>)
    ensures
        pullable_views(r@) == pull_entries(config.models@, config.providers@, string_views(selected_models@)),
{
    let ghost sel = string_views(selected_models@);
    let mut r: Vec<Pullable> = Vec::new();
    let mut i: usize = 0;
    assert(sel.take(0) =~= Seq::<Seq<char>>::empty());
    while i < selected_models.len()
        invariant
            i <= selected_models@.len(),
            sel == string_views(selected_models@),
            pullable_views(r@) == pull_entries(config.models@, config.providers@, sel.take(i as int)),
        decreases selected_models@.len() - i,
    {
        let id = selected_models[i].as_str();
        assert(sel.take(i + 1).drop_last() =~= sel.take(i as int));
        assert(sel.take(i + 1).last() == id@);
        let ghost before = r@;
        match config.get_model(id) {
            Some(mc) => match &mc.provider_id {
                Some(p) => match config.get_provider(p.as_str()) {
                    Some(pc) => {
                        r.push(
                            Pullable {
                                model_id: crate::text::owned(id),
                                provider_id: crate::text::owned(p.as_str()),
                                provider_type: crate::text::owned(pc.provider_type.as_str()),
                            },
                        );
                        assert(pullable_views(r@) =~= pullable_views(before).push(
                            (id@, p@, pc.provider_type@),
                        ));
                    },
                    None => {},
                },
                None => {},
            },
            None => {},
        }
        i += 1;
    }
    assert(sel.take(i as int) =~= sel);
    r
}

/// How a pull is offered: `"{provider} → {model} ({type})"`.
pub open spec fn pull_item_text(p: (Seq<char>, Seq<char>, Seq<char>)) -> Seq<char> {
    p.1 + " → "@ + p.0 + " ("@ + p.2 + ")"@
}

/// The text a pull is offered with.
pub fn pull_item(p: &Pullable) -> (s: String)
    ensures
        s@ == pull_item_text((p.model_id@, p.provider_id@, p.provider_type@)),
{
    let a = join2(p.provider_id.as_str(), " → ");
    let b = join2(a.as_str(), p.model_id.as_str());
    let c = join2(b.as_str(), " (");
    let d = join2(c.as_str(), p.provider_type.as_str());
    join2(d.as_str(), ")")
}

/*-- the summary --------------------------------------------------------------------*/

/// A summary line: `label`, then the items separated by `", "`, or `none`.
pub open spec fn summary_line(label: Seq<char>, items: Seq<Seq<char>>) -> Seq<char> {
    if items.len() == 0 {
        label + "none"@
    } else {
        label + joined(items, ", "@)
    }
}

/// The messages that close the setup wizard.
pub open spec fn summary_texts(
    caps: Seq<Seq<char>>,
    launchers: Seq<Seq<char>>,
    providers: Seq<Seq<char>>,
    models: Seq<Seq<char>>,
) -> Seq<Seq<char>> {
    let base = seq![
        "\n=== Setup Complete ==="@,
        summary_line("Providers: "@, providers),
        summary_line("Models: "@, models),
        summary_line("Launchers: "@, launchers),
        summary_line("Capabilities: "@, caps),
        "\nRun `granite-cli launcher list` to see configured launchers."@,
    ];
    if launchers.len() == 0 {
        base
    } else {
        base.push("Run `granite-cli launch "@ + launchers[0] + "` to launch with Granite overlay."@)
    }
}

fn summary_line_exec(label: &str, items: &Vec<String>) -> (s: String)
    ensures
        s@ == summary_line(label@, string_views(items@)),
{
    if items.len() == 0 {
        join2(label, "none")
    } else {
        join2(label, str_join(items, ", ").as_str())
    }
}

/// The messages shown when setup is complete: what was selected of each kind,
/// then how to go on.
pub fn summary_messages(
    caps: &Vec<String>,
    launchers: &Vec<String>,
    providers: &Vec<String>,
    models: &Vec<String>,
) -> (msgs: Vec<String>)
    ensures
        string_views(msgs@) == summary_texts(
            string_views(caps@),
            string_views(launchers@),
            string_views(providers@),
            string_views(models@),
        ),
{
    let mut msgs: Vec<String> = Vec::new();
    msgs.push("\n=== Setup Complete ===".to_string());
    msgs.push(summary_line_exec("Providers: ", providers));
    msgs.push(summary_line_exec("Models: ", models));
    msgs.push(summary_line_exec("Launchers: ", launchers));
    msgs.push(summary_line_exec("Capabilities: ", caps));
    msgs.push("\nRun `granite-cli launcher list` to see configured launchers.".to_string());
    if launchers.len() > 0 {
        let a = join2("Run `granite-cli launch ", launchers[0].as_str());
        msgs.push(join2(a.as_str(), "` to launch with Granite overlay."));
    }
    proof {
        let ghost base = seq![
            "\n=== Setup Complete ==="@,
            summary_line("Providers: "@, string_views(providers@)),
            summary_line("Models: "@, string_views(models@)),
            summary_line("Launchers: "@, string_views(launchers@)),
            summary_line("Capabilities: "@, string_views(caps@)),
            "\nRun `granite-cli launcher list` to see configured launchers."@,
        ];
        if launchers@.len() == 0 {
            assert(string_views(msgs@) =~= base);
        } else {
            assert(string_views(msgs@) =~= base.push(
                "Run `granite-cli launch "@ + launchers@[0]@ + "` to launch with Granite overlay."@,
            ));
        }
    }
    msgs
}

} // verus!
