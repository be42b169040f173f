//! The `provider` commands: the catalog of provider types and the configured providers.
use vstd::prelude::*;

use crate::commands::counted_title;
use crate::commands::headers_view;
use crate::commands::lemma_rows_of_distinct;
use crate::commands::lemma_sorted_lists;
use crate::commands::lists_rows;
use crate::commands::rows_of;
use crate::commands::rows_view;
use crate::commands::sort_rows;
use crate::commands::sorted_by;
use crate::commands::Table;
use crate::config::Config;
use crate::config::ProviderConfig;
use crate::json::json_get_str;
use crate::json::JsonValue;
use crate::json::JsonView;
use crate::providers::probe::default_provider_settings;
use crate::providers::probe::default_settings;
use crate::providers::probe::known_provider_type;
use crate::text::join2;
use crate::providers::base::ProviderMetadata;
use crate::registry::Factory;
use crate::text::decimal;
use crate::text::string_views;

verus! {

broadcast use crate::text::group_views;

/// The `provider` commands.
pub struct ProviderCommands;

/// A catalog row: the type's id and its default endpoint.
pub open spec fn catalog_row(id: Seq<char>, m: ProviderMetadata) -> Seq<Seq<char>> {
    seq![id, m.default_endpoint@]
}

/// `catalog_row`, as a function value.
pub open spec fn catalog_row_fn() -> spec_fn(Seq<char>, ProviderMetadata) -> Seq<Seq<char>> {
    |id: Seq<char>, m: ProviderMetadata| catalog_row(id, m)
}

/// `"true"` or `"false"`.
pub open spec fn bool_text(b: bool) -> Seq<char> {
    if b {
        "true"@
    } else {
        "false"@
    }
}

/// A row of the configured providers: id, type, whether enabled, and the
/// `base_url` setting (`"-"` when there is none).
pub open spec fn list_row(id: Seq<char>, cfg: ProviderConfig) -> Seq<Seq<char>> {
    seq![id, cfg.provider_type@, bool_text(cfg.enabled), match json_get_str(cfg.config, "base_url"@) {
        Some(u) => u,
        None => "-"@,
    }]
}

/// `list_row`, as a function value.
pub open spec fn list_row_fn() -> spec_fn(Seq<char>, ProviderConfig) -> Seq<Seq<char>> {
    |id: Seq<char>, c: ProviderConfig| list_row(id, c)
}

impl ProviderCommands {
    /// The provider types of `providers`, one row each (id, default endpoint), by id.
    pub fn catalog(providers: &Factory<ProviderMetadata>) -> (t: Table)
        ensures
            t.title@ == "Provider Catalog ("@ + decimal(t.rows@.len()) + " providers)"@,
            headers_view(t) == seq!["ID"@, "DEFAULT ENDPOINT"@],
            sorted_by(rows_view(t.rows@), seq![0int]),
            lists_rows(rows_view(t.rows@), providers@, catalog_row_fn()),
    {
        let ghost row = catalog_row_fn();
        let pairs = providers.list();
        let mut rows: Vec<Vec<String>> = Vec::new();
        let mut i: usize = 0;
        while i < pairs.len()
            invariant
                i <= pairs@.len(),
                rows_view(rows@) == rows_of(pairs@, row).take(i as int),
                row == catalog_row_fn(),
            decreases pairs@.len() - i,
        {
            let r = crate::text::strings2(pairs[i].0.as_str(), pairs[i].1.default_endpoint.as_str());
            let ghost before = rows_view(rows@);
            rows.push(r);
            assert(rows_view(rows@) =~= rows_of(pairs@, row).take(i + 1)) by {
                assert(rows_view(rows@) =~= before.push(string_views(r@)));
            }
            i += 1;
        }
        let cols = vec![0usize];
        proof {
            assert(rows_of(pairs@, row).take(i as int) =~= rows_of(pairs@, row));
            assert(cols@.map_values(|c: usize| c as int) =~= seq![0int]);
            assert(seq![0int][0] == 0);
            lemma_rows_of_distinct(pairs@, row, seq![0int]);
        }
        let sorted = sort_rows(rows, &cols);
        proof {
            lemma_sorted_lists(rows_view(sorted@), pairs@, providers@, row);
        }
        let title = counted_title("Provider Catalog (", sorted.len(), " providers)");
        Table { title, headers: crate::text::strings2("ID", "DEFAULT ENDPOINT"), rows: sorted }
    }

    /// The configured providers, one row each (id, type, enabled, base URL), by type then id.
    pub fn list(config: &Config) -> (t: Table)
        ensures
            t.title@ == "Configured Providers ("@ + decimal(t.rows@.len()) + " providers)"@,
            headers_view(t) == seq!["ID"@, "TYPE"@, "ENABLED"@, "BASE URL"@],
            sorted_by(rows_view(t.rows@), seq![1int, 0int]),
            lists_rows(rows_view(t.rows@), config.providers@, list_row_fn()),
    {
        let ghost row = list_row_fn();
        let pairs = config.providers.pairs();
        let mut rows: Vec<Vec<String>> = Vec::new();
        let mut i: usize = 0;
        while i < pairs.len()
            invariant
                i <= pairs@.len(),
                rows_view(rows@) == rows_of(pairs@, row).take(i as int),
                row == list_row_fn(),
            decreases pairs@.len() - i,
        {
            let cfg = &pairs[i].1;
            let url = match cfg.config.get_str("base_url") {
                Some(u) => crate::text::owned(u),
                None => "-".to_string(),
            };
            let enabled = if cfg.enabled {
                "true".to_string()
            } else {
                "false".to_string()
            };
            proof {
                reveal_strlit("base_url");
            }
            let r = crate::text::strings4(pairs[i].0.as_str(), cfg.provider_type.as_str(), enabled.as_str(), url.as_str());
            assert(enabled@ == bool_text(cfg.enabled));
            assert(string_views(r@) == list_row(pairs@[i as int].0@, pairs@[i as int].1));
            assert(rows_of(pairs@, row)[i as int] == list_row(pairs@[i as int].0@, pairs@[i as int].1));
            let ghost before = rows_view(rows@);
            rows.push(r);
            assert(rows_view(rows@) =~= rows_of(pairs@, row).take(i + 1)) by {
                assert(rows_view(rows@) =~= before.push(string_views(r@)));
            }
            i += 1;
        }
        let cols = vec![1usize, 0usize];
        proof {
            assert(rows_of(pairs@, row).take(i as int) =~= rows_of(pairs@, row));
            assert(cols@.map_values(|c: usize| c as int) =~= seq![1int, 0int]);
            assert(seq![1int, 0int][1] == 0);
            lemma_rows_of_distinct(pairs@, row, seq![1int, 0int]);
        }
        let sorted = sort_rows(rows, &cols);
        proof {
            lemma_sorted_lists(rows_view(sorted@), pairs@, config.providers@, row);
        }
        let title = counted_title("Configured Providers (", sorted.len(), " providers)");
        Table { title, headers: crate::text::strings4("ID", "TYPE", "ENABLED", "BASE URL"), rows: sorted }
    }
}


/// The id a new provider instance gets: the one given, else its type.
pub open spec fn instance_id_of(provider_type: Seq<char>, instance_id: Option<&str>) -> Seq<char> {
    match instance_id {
        Some(i) => i@,
        None => provider_type,
    }
}

/// The settings the user is asked about when setting up `provider_type` as
/// `instance_id`, before answering: the instance's current settings when it is
/// configured, else the type's default settings, else an empty object.
pub open spec fn provider_defaults(config: Config, provider_type: Seq<char>, id: Seq<char>) -> JsonView {
    if config.providers@.contains_key(id) {
        config.providers@[id].config@
    } else if known_provider_type(provider_type) {
        default_settings(provider_type)
    } else {
        JsonView::Object(Seq::empty())
    }
}

/// The settings the user is asked about (see `provider_defaults`).
pub fn provider_setup_defaults(config: &Config, provider_type: &str, instance_id: &str) -> (v: JsonValue)
    ensures
        v@ == provider_defaults(*config, provider_type@, instance_id@),
{
    match config.get_provider(instance_id) {
        Some(existing) => crate::json::copy_json(&existing.config),
        None => match default_provider_settings(provider_type) {
            Some(v) => v,
            None => {
                let members: Vec<(String, JsonValue)> = Vec::new();
                proof {
                    crate::json::lemma_object_view(members);
                    assert(crate::json::members_view(members@) =~= Seq::<(Seq<char>, JsonView)>::empty());
                }
                JsonValue::Object(members)
            },
        },
    }
}

/// The provider instance that setting up `provider_type` as `instance_id`
/// configures from the user's answered `settings`: refused for a type not in
/// `providers`; nothing when the instance exists and is not to be
/// overwritten; refused when the type has no settings to ask about;
/// otherwise the instance, enabled, holding the answered settings.
pub fn provider_setup_config(
    providers: &Factory<ProviderMetadata>,
    config: &Config,
    provider_type: &str,
    instance_id: Option<&str>,
    overwrite: bool,
    settings: JsonValue,
) -> (r: Result<Option<ProviderConfig>, String>)
    ensures
        !providers@.contains_key(provider_type@) ==> (r matches Err(e) && e@ == "Provider type '"@
            + provider_type@ + "' not found in registry."@),
        providers@.contains_key(provider_type@) ==> {
            let id = instance_id_of(provider_type@, instance_id);
            if config.providers@.contains_key(id) && !overwrite {
                r matches Ok(None)
            } else if known_provider_type(provider_type@) {
                r matches Ok(Some(pc)) && pc.provider_id@ == id && pc.provider_type@ == provider_type@
                    && pc.config@ == settings@ && pc.enabled
            } else {
                r matches Err(e) && e@ == "No config schema registered for provider type '"@ + provider_type@ + "'"@
            }
        },
{
    if providers.get(provider_type).is_none() {
        let a = join2("Provider type '", provider_type);
        return Err(join2(a.as_str(), "' not found in registry."));
    }
    let id: String = match instance_id {
        Some(i) => crate::text::owned(i),
        None => crate::text::owned(provider_type),
    };
    if config.get_provider(id.as_str()).is_some() && !overwrite {
        return Ok(None);
    }
    if default_provider_settings(provider_type).is_none() {
        let a = join2("No config schema registered for provider type '", provider_type);
        return Err(join2(a.as_str(), "'"));
    }
    Ok(Some(ProviderConfig { provider_id: id, provider_type: crate::text::owned(provider_type), config: settings, enabled: true }))
}

} // verus!
