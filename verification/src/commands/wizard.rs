//! Decisions the setup commands take between their prompts: which types to
//! offer, which existing instance a new one clashes with, how a launcher's
//! settings are normalised, which dependency is picked, and what a health
//! check reports.
use vstd::prelude::*;

use crate::capabilities::base::CapabilityMetadata;
use crate::commands::discovery::lists_keys;
use crate::commands::discovery::sort_by_name;
use crate::commands::discovery::sorted_by_name;
use crate::commands::discovery::ByName;
use crate::config::Config;
use crate::config::LauncherConfig;
use crate::json::json_view;
use crate::json::members_view;
use crate::json::set_member;
use crate::json::set_member_exec;
use crate::json::JsonValue;
use crate::json::JsonView;
use crate::launchers::base::LauncherMetadata;
use crate::providers::base::HealthStatus;
use crate::providers::base::ProviderMetadata;
use crate::registry::Factory;
use crate::strmap::lists_map;
use crate::text::decimal;
use crate::text::join2;
use crate::text::joined;
use crate::text::str_eq;
use crate::text::str_join;
use crate::text::string_views;
use crate::text::u64_to_string;

verus! {

broadcast use crate::text::group_views;

impl ByName for ProviderMetadata {
    open spec fn name_of(&self) -> Seq<char> {
        self.name@
    }

    fn name(&self) -> (s: String) {
        crate::text::owned(self.name.as_str())
    }
}

impl ByName for LauncherMetadata {
    open spec fn name_of(&self) -> Seq<char> {
        self.name@
    }

    fn name(&self) -> (s: String) {
        crate::text::owned(self.name.as_str())
    }
}

impl ByName for CapabilityMetadata {
    open spec fn name_of(&self) -> Seq<char> {
        self.name@
    }

    fn name(&self) -> (s: String) {
        crate::text::owned(self.name.as_str())
    }
}

/*-- the types on offer -----------------------------------------------------------*/

/// How a type is offered: `"{id} ({name})"`.
pub open spec fn type_entry(id: Seq<char>, name: Seq<char>) -> Seq<char> {
    id + " ("@ + name + ")"@
}

/// The types of `catalog`, each as `"{id} ({name})"`, in catalog order.
pub fn type_entries<M: ByName>(catalog: &Factory<M>) -> (r: Vec<String>)
    ensures
        exists|pairs: Seq<(String, M)>|
            lists_map(pairs, catalog@) && string_views(r@) == Seq::new(
                pairs.len(),
                |i: int| type_entry(pairs[i].0@, pairs[i].1.name_of()),
            ),
{
    let pairs = catalog.list();
    let mut r: Vec<String> = Vec::new();
    let mut i: usize = 0;
    while i < pairs.len()
        invariant
            i <= pairs@.len(),
            r@.len() == i,
            forall|k: int| 0 <= k < i ==> #[trigger] r@[k]@ == type_entry(pairs@[k].0@, pairs@[k].1.name_of()),
        decreases pairs@.len() - i,
    {
        let a = join2(pairs[i].0.as_str(), " (");
        let b = join2(a.as_str(), pairs[i].1.name().as_str());
        r.push(join2(b.as_str(), ")"));
        i += 1;
    }
    assert(string_views(r@) =~= Seq::new(pairs@.len(), |k: int| type_entry(pairs@[k].0@, pairs@[k].1.name_of())));
    r
}

/// The message listing the types on offer: `prefix` then the entries
/// separated by `", "`.
pub fn types_message(prefix: &str, entries: &Vec<String>) -> (s: String)
    ensures
        s@ == prefix@ + joined(string_views(entries@), ", "@),
{
    join2(prefix, str_join(entries, ", ").as_str())
}

/// The capability types on offer, in order of their entries' text.
pub fn capability_types_message(caps: &Factory<CapabilityMetadata>) -> (s: String)
    ensures
        exists|entries: Seq<String>|
            sorted_by_name(entries) && s@ == "Available types: "@ + joined(string_views(entries), ", "@) && exists|
                pairs: Seq<(String, CapabilityMetadata)>,
            |
                lists_map(pairs, caps@) && string_views(entries).to_multiset() == Seq::new(
                    pairs.len(),
                    |i: int| type_entry(pairs[i].0@, pairs[i].1.name@),
                ).to_multiset(),
{
    let entries = type_entries(caps);
    let ghost pairs = choose|pairs: Seq<(String, CapabilityMetadata)>|
        lists_map(pairs, caps@) && string_views(entries@) == Seq::new(
            pairs.len(),
            |i: int| type_entry(pairs[i].0@, pairs[i].1.name_of()),
        );
    let sorted = sort_by_name(entries);
    proof {
        lemma_views_multiset(entries@, sorted@);
        assert(Seq::new(pairs.len(), |i: int| type_entry(pairs[i].0@, pairs[i].1.name_of())) =~= Seq::new(
            pairs.len(),
            |i: int| type_entry(pairs[i].0@, pairs[i].1.name@),
        ));
    }
    let s = types_message("Available types: ", &sorted);
    proof {
        reveal_strlit("Available types: ");
    }
    s
}

/// The provider types on offer, in catalog order.
pub fn provider_types_message(providers: &Factory<ProviderMetadata>) -> (s: String)
    ensures
        exists|pairs: Seq<(String, ProviderMetadata)>|
            lists_map(pairs, providers@) && s@ == "Available provider types: "@ + joined(
                Seq::new(pairs.len(), |i: int| type_entry(pairs[i].0@, pairs[i].1.name@)),
                ", "@,
            ),
{
    let entries = type_entries(providers);
    let ghost pairs = choose|pairs: Seq<(String, ProviderMetadata)>|
        lists_map(pairs, providers@) && string_views(entries@) == Seq::new(
            pairs.len(),
            |i: int| type_entry(pairs[i].0@, pairs[i].1.name_of()),
        );
    proof {
        assert(Seq::new(pairs.len(), |i: int| type_entry(pairs[i].0@, pairs[i].1.name_of())) =~= Seq::new(
            pairs.len(),
            |i: int| type_entry(pairs[i].0@, pairs[i].1.name@),
        ));
    }
    types_message("Available provider types: ", &entries)
}

/// Reordered strings have reordered views.
proof fn lemma_views_multiset(a: Seq<String>, b: Seq<String>)
    requires
        b.to_multiset() == a.to_multiset(),
    ensures
        string_views(b).to_multiset() == string_views(a).to_multiset(),
    decreases a.len(),
{
    broadcast use vstd::seq_lib::group_to_multiset_ensures;
    broadcast use vstd::multiset::group_multiset_axioms;

    if a.len() == 0 {
        vstd::seq_lib::to_multiset_len(b);
        vstd::seq_lib::to_multiset_len(a);
        assert(string_views(a) =~= Seq::<Seq<char>>::empty());
        assert(string_views(b) =~= Seq::<Seq<char>>::empty());
    } else {
        let x = a[0];
        assert(a.contains(x));
        vstd::seq_lib::to_multiset_contains(a, x);
        vstd::seq_lib::to_multiset_contains(b, x);
        let k = choose|k: int| 0 <= k < b.len() && b[k] == x;
        let a1 = a.remove(0);
        let b1 = b.remove(k);
        vstd::seq_lib::to_multiset_remove(a, 0);
        vstd::seq_lib::to_multiset_remove(b, k);
        lemma_views_multiset(a1, b1);
        assert(string_views(a) =~= string_views(a1).insert(0, x@));
        assert(string_views(b) =~= string_views(b1).insert(k, x@));
        vstd::seq_lib::to_multiset_insert(string_views(a1), 0, x@);
        vstd::seq_lib::to_multiset_insert(string_views(b1), k, x@);
    }
}

/*-- launchers ------------------------------------------------------------------------*/

/// The ids of the launchers among `pairs` of type `launcher_type` other
/// than `instance_id`, in order.
pub open spec fn same_type_ids(
    pairs: Seq<(String, LauncherConfig)>,
    launcher_type: Seq<char>,
    instance_id: Seq<char>,
) -> Seq<Seq<char>>
    decreases pairs.len(),
{
    if pairs.len() == 0 {
        Seq::empty()
    } else {
        let rest = same_type_ids(pairs.drop_last(), launcher_type, instance_id);
        let c = pairs.last().1;
        if c.launcher_type@ == launcher_type && c.launcher_id@ != instance_id {
            rest.push(c.launcher_id@)
        } else {
            rest
        }
    }
}

/// The configured launchers of type `launcher_type` other than
/// `instance_id`, which a new one of that type would duplicate.
pub fn same_type_instances(config: &Config, launcher_type: &str, instance_id: &str) -> (r: Vec<String>)
    ensures
        exists|pairs: Seq<(String, LauncherConfig)>|
            lists_map(pairs, config.launchers@) && string_views(r@) == same_type_ids(pairs, launcher_type@, instance_id@),
{
    let pairs = config.launchers.pairs();
    let mut r: Vec<String> = Vec::new();
    let mut i: usize = 0;
    while i < pairs.len()
        invariant
            i <= pairs@.len(),
            string_views(r@) == same_type_ids(pairs@.take(i as int), launcher_type@, instance_id@),
        decreases pairs@.len() - i,
    {
        proof {
            assert(pairs@.take(i + 1).drop_last() =~= pairs@.take(i as int));
            assert(pairs@.take(i + 1).last() == pairs@[i as int]);
        }
        let c = &pairs[i].1;
        if str_eq(c.launcher_type.as_str(), launcher_type) && !str_eq(c.launcher_id.as_str(), instance_id) {
            let ghost before = string_views(r@);
            r.push(crate::text::owned(c.launcher_id.as_str()));
            assert(string_views(r@) =~= before.push(c.launcher_id@));
        }
        i += 1;
    }
    assert(pairs@.take(i as int) =~= pairs@);
    r
}

/// A launcher's settings with an empty `command_path` read as none given.
pub open spec fn normalized_settings(cfg: JsonValue) -> JsonView {
    match cfg {
        JsonValue::Object(members) => if crate::json::json_get_str(cfg, "command_path"@) == Some(Seq::<char>::empty()) {
            JsonView::Object(set_member(members_view(members@), "command_path"@, JsonView::Null))
        } else {
            json_view(cfg)
        },
        _ => json_view(cfg),
    }
}

/// The settings with an empty `command_path` set to null, so that the
/// binary is looked up on `PATH`.
pub fn normalize_command_path(cfg: JsonValue) -> (r: JsonValue)
    ensures
        r@ == normalized_settings(cfg),
{
    proof {
        reveal_strlit("command_path");
    }
    let empty_path = match cfg.get_str("command_path") {
        Some(p) => {
            let e = p.is_empty();
            proof {
                if e {
                    assert(p@ =~= Seq::<char>::empty());
                }
            }
            e
        },
        None => false,
    };
    if !empty_path {
        return cfg;
    }
    match cfg {
        JsonValue::Object(members) => {
            let mut ms = members;
            set_member_exec(&mut ms, "command_path", JsonValue::Null);
            proof {
                crate::json::lemma_object_view(ms);
            }
            JsonValue::Object(ms)
        },
        other => other,
    }
}

/*-- dependencies -----------------------------------------------------------------------*/

/// How a dependency of a capability being set up is filled.
pub enum Pick {
    /// Nothing satisfies it and it is optional: left unset.
    Unset,
    /// The one candidate.
    Chosen(String),
    /// Several candidates: the user chooses.
    Ask,
}

/// Picks the candidate for a dependency: refused when it is required and
/// nothing satisfies it; left unset when optional and nothing does; the sole
/// candidate; or a choice for the user among several.
pub fn pick_dependency(candidates: &Vec<String>, required: bool, what: &str) -> (r: Result<Pick, String>)
    ensures
        candidates@.len() == 0 && required ==> (r matches Err(e) && e@ == "No configured "@ + what@
            + " satisfies this capability's requirements yet. Configure one first."@),
        candidates@.len() == 0 && !required ==> (r matches Ok(Pick::Unset)),
        candidates@.len() == 1 ==> (r matches Ok(Pick::Chosen(c)) && c@ == candidates@[0]@),
        candidates@.len() > 1 ==> (r matches Ok(Pick::Ask)),
{
    if candidates.len() == 0 {
        if required {
            let a = join2("No configured ", what);
            return Err(join2(a.as_str(), " satisfies this capability's requirements yet. Configure one first."));
        }
        return Ok(Pick::Unset);
    }
    if candidates.len() == 1 {
        return Ok(Pick::Chosen(crate::text::owned(candidates[0].as_str())));
    }
    Ok(Pick::Ask)
}

/*-- health -------------------------------------------------------------------------------*/

/// The providers a health check covers: the one named, or every configured one.
pub fn health_targets(config: &Config, provider_id: Option<&str>) -> (r: Vec<String>)
    ensures
        match provider_id {
            Some(id) => string_views(r@) == seq![id@],
            None => lists_keys(string_views(r@), config.providers@),
        },
{
    match provider_id {
        Some(id) => {
            let r = vec![crate::text::owned(id)];
            assert(string_views(r@) =~= seq![id@]);
            r
        },
        None => crate::commands::discovery::keys_of(&config.providers),
    }
}

/// What a health check shows beside whether the provider is healthy: the latency in
/// milliseconds, with the error when there is one.
pub open spec fn health_detail_text(latency_ms: u64, error: Option<Seq<char>>) -> Seq<char> {
    match error {
        Some(e) => decimal(latency_ms as nat) + " — "@ + e,
        None => decimal(latency_ms as nat) + "ms"@,
    }
}

/// What a health check shows beside whether the provider is healthy.
pub fn health_detail(status: &HealthStatus) -> (s: String)
    ensures
        s@ == health_detail_text(
            status.latency_ms,
            match status.error {
                Some(e) => Some(e@),
                None => None,
            },
        ),
{
    let ms = u64_to_string(status.latency_ms);
    match &status.error {
        Some(e) => {
            let a = join2(ms.as_str(), " — ");
            join2(a.as_str(), e.as_str())
        },
        None => join2(ms.as_str(), "ms"),
    }
}

} // verus!
