//! The `capability` commands: the catalog of capabilities, the configured
//! ones, what is known of one, and removing one.
use vstd::prelude::*;

use crate::capabilities::base::Dependency;
use crate::commands::counted_title;
use crate::commands::headers_view;
use crate::commands::lemma_rows_of_distinct;
use crate::commands::lemma_sorted_lists;
use crate::commands::lists_rows;
use crate::commands::rows_of;
use crate::commands::rows_view;
use crate::commands::sort_rows;
use crate::commands::sorted_by;
use crate::commands::CommandError;
use crate::commands::Detail;
use crate::commands::Table;
use crate::config::CapabilityConfig;
use crate::config::Config;
use crate::json::members_view;
use crate::json::JsonValue;
use crate::json::JsonView;
use crate::json::copy_json;
use crate::capabilities::base::CapabilityMetadata;
use crate::registry::Factory;
use crate::text::decimal;
use crate::text::join2;
use crate::text::joined;
use crate::text::str_join;
use crate::text::string_views;

verus! {

broadcast use crate::text::group_views;

/// The `capability` commands.
pub struct CapabilityCommands;

/// The dependencies as listed: each shown, separated by `", "`; `"None"` when there are none.
pub open spec fn deps_text(deps: Seq<Dependency>) -> Seq<char> {
    if deps.len() == 0 {
        "None"@
    } else {
        joined(Seq::new(deps.len(), |i: int| deps[i].display_spec()), ", "@)
    }
}

/// A catalog row: id, name and dependencies.
pub open spec fn catalog_row(id: Seq<char>, c: CapabilityMetadata) -> Seq<Seq<char>> {
    seq![id, c.name@, deps_text(c.dependencies@)]
}

/// `catalog_row`, as a function value.
pub open spec fn catalog_row_fn() -> spec_fn(Seq<char>, CapabilityMetadata) -> Seq<Seq<char>> {
    |id: Seq<char>, c: CapabilityMetadata| catalog_row(id, c)
}

/// A row of the configured capabilities: id and type.
pub open spec fn list_row(id: Seq<char>, c: CapabilityConfig) -> Seq<Seq<char>> {
    seq![id, c.capability_type@]
}

/// `list_row`, as a function value.
pub open spec fn list_row_fn() -> spec_fn(Seq<char>, CapabilityConfig) -> Seq<Seq<char>> {
    |id: Seq<char>, c: CapabilityConfig| list_row(id, c)
}

/// The catalog entry `info` describes: the one of the configured instance's
/// type, else the one whose id is the id asked for.
pub open spec fn info_entry(
    configured: Option<CapabilityConfig>,
    caps: Map<Seq<char>, CapabilityMetadata>,
    id: Seq<char>,
) -> Option<CapabilityMetadata> {
    match configured {
        Some(c) if caps.contains_key(c.capability_type@) => Some(caps[c.capability_type@]),
        _ => if caps.contains_key(id) {
            Some(caps[id])
        } else {
            None
        },
    }
}

/// The settings of a configured capability: the members of its configuration
/// when that is an object, else none.
pub open spec fn config_settings(config: JsonValue) -> Seq<(Seq<char>, JsonView)> {
    match config {
        JsonValue::Object(members) => members_view(members@),
        _ => Seq::empty(),
    }
}

/// The fields `info` shows for catalog entry `cap`: name, description, the
/// tags when there are some, and for a configured instance its type.
pub open spec fn info_fields(cap: CapabilityMetadata, configured: Option<CapabilityConfig>) -> Seq<(Seq<char>, Seq<char>)> {
    let base = seq![("Name"@, cap.name@), ("Description"@, cap.description@)];
    let tags = if cap.tags@.len() > 0 {
        base.push(("Tags"@, joined(string_views(cap.tags@), ", "@)))
    } else {
        base
    };
    match configured {
        Some(c) => tags.push(("Type"@, c.capability_type@)),
        None => tags,
    }
}

/// The view of a detail's fields.
pub open spec fn fields_view(f: Seq<(String, String)>) -> Seq<(Seq<char>, Seq<char>)> {
    Seq::new(f.len(), |i: int| (f[i].0@, f[i].1@))
}

fn deps_text_exec(deps: &Vec<Dependency>) -> (s: String)
    ensures
        s@ == deps_text(deps@),
{
    if deps.len() == 0 {
        return "None".to_string();
    }
    let mut shown: Vec<String> = Vec::new();
    let mut i: usize = 0;
    while i < deps.len()
        invariant
            i <= deps@.len(),
            shown@.len() == i,
            forall|j: int| 0 <= j < i ==> #[trigger] shown@[j]@ == deps@[j].display_spec(),
        decreases deps@.len() - i,
    {
        shown.push(deps[i].display());
        i += 1;
    }
    assert(string_views(shown@) =~= Seq::new(deps@.len(), |i: int| deps@[i].display_spec()));
    str_join(&shown, ", ")
}

fn push_field(fields: &mut Vec<(String, String)>, label: &str, value: String)
    ensures
        fields_view(final(fields)@) == fields_view(old(fields)@).push((label@, value@)),
{
    fields.push((label.to_string(), value));
    assert(fields_view(fields@) =~= fields_view(old(fields)@).push((label@, value@)));
}

/// A copy of the members of an object; none for other values.
fn config_members(config: &JsonValue) -> (r: Vec<(String, JsonValue)>)
    ensures
        members_view(r@) == config_settings(*config),
{
    match config {
        JsonValue::Object(members) => {
            let mut out: Vec<(String, JsonValue)> = Vec::new();
            let mut i: usize = 0;
            while i < members.len()
                invariant
                    i <= members@.len(),
                    members_view(out@) == members_view(members@).take(i as int),
                decreases members@.len() - i,
            {
                let ghost before = members_view(out@);
                out.push((crate::text::owned(members[i].0.as_str()), copy_json(&members[i].1)));
                assert(members_view(out@) =~= members_view(members@).take(i + 1)) by {
                    assert(members_view(out@) =~= before.push(members_view(members@)[i as int]));
                }
                i += 1;
            }
            assert(members_view(members@).take(i as int) =~= members_view(members@));
            out
        },
        _ => Vec::new(),
    }
}

impl CapabilityCommands {
    /// The capabilities of `caps`, one row each (id, name, dependencies), by id.
    pub fn catalog(caps: &Factory<CapabilityMetadata>) -> (t: Table)
        ensures
            t.title@ == "Capability Catalog ("@ + decimal(t.rows@.len()) + " capabilities)"@,
            headers_view(t) == seq!["ID"@, "NAME"@, "DEPENDENCIES"@],
            sorted_by(rows_view(t.rows@), seq![0int]),
            lists_rows(rows_view(t.rows@), caps@, catalog_row_fn()),
    {
        let ghost row = catalog_row_fn();
        let pairs = caps.list();
        let mut rows: Vec<Vec<String>> = Vec::new();
        let mut i: usize = 0;
        while i < pairs.len()
            invariant
                i <= pairs@.len(),
                rows_view(rows@) == rows_of(pairs@, row).take(i as int),
                row == catalog_row_fn(),
            decreases pairs@.len() - i,
        {
            let c = &pairs[i].1;
            let deps = deps_text_exec(&c.dependencies);
            let r = crate::text::strings3(pairs[i].0.as_str(), c.name.as_str(), deps.as_str());
            let ghost before = rows_view(rows@);
            rows.push(r);
            assert(rows_view(rows@) =~= rows_of(pairs@, row).take(i + 1)) by {
                assert(rows_view(rows@) =~= before.push(string_views(r@)));
            }
            i += 1;
        }
        let cols = vec![0usize];
        proof {
            assert(rows_of(pairs@, row).take(i as int) =~= rows_of(pairs@, row));
            assert(cols@.map_values(|c: usize| c as int) =~= seq![0int]);
            assert(seq![0int][0] == 0);
            lemma_rows_of_distinct(pairs@, row, seq![0int]);
        }
        let sorted = sort_rows(rows, &cols);
        proof {
            lemma_sorted_lists(rows_view(sorted@), pairs@, caps@, row);
        }
        let title = counted_title("Capability Catalog (", sorted.len(), " capabilities)");
        Table { title, headers: crate::text::strings3("ID", "NAME", "DEPENDENCIES"), rows: sorted }
    }

    /// The configured capabilities, one row each (id, type), by type then id.
    pub fn list(config: &Config) -> (t: Table)
        ensures
            t.title@ == "Configured Capabilities ("@ + decimal(t.rows@.len()) + " capabilities)"@,
            headers_view(t) == seq!["ID"@, "TYPE"@],
            sorted_by(rows_view(t.rows@), seq![1int, 0int]),
            lists_rows(rows_view(t.rows@), config.capabilities@, list_row_fn()),
    {
        let ghost row = list_row_fn();
        let pairs = config.capabilities.pairs();
        let mut rows: Vec<Vec<String>> = Vec::new();
        let mut i: usize = 0;
        while i < pairs.len()
            invariant
                i <= pairs@.len(),
                rows_view(rows@) == rows_of(pairs@, row).take(i as int),
                row == list_row_fn(),
            decreases pairs@.len() - i,
        {
            let r = crate::text::strings2(pairs[i].0.as_str(), pairs[i].1.capability_type.as_str());
            let ghost before = rows_view(rows@);
            rows.push(r);
            assert(rows_view(rows@) =~= rows_of(pairs@, row).take(i + 1)) by {
                assert(rows_view(rows@) =~= before.push(string_views(r@)));
            }
            i += 1;
        }
        let cols = vec![1usize, 0usize];
        proof {
            assert(rows_of(pairs@, row).take(i as int) =~= rows_of(pairs@, row));
            assert(cols@.map_values(|c: usize| c as int) =~= seq![1int, 0int]);
            assert(seq![1int, 0int][1] == 0);
            lemma_rows_of_distinct(pairs@, row, seq![1int, 0int]);
        }
        let sorted = sort_rows(rows, &cols);
        proof {
            lemma_sorted_lists(rows_view(sorted@), pairs@, config.capabilities@, row);
        }
        let title = counted_title("Configured Capabilities (", sorted.len(), " capabilities)");
        Table { title, headers: crate::text::strings2("ID", "TYPE"), rows: sorted }
    }

    /// What is known of `capability_id`: its catalog entry (found through the
    /// configured instance's type, else through the id) and its configuration.
    /// A configured instance of an unknown type gets a note; an id neither
    /// configured nor in the catalog is refused.
    pub fn info(config: &Config, caps: &Factory<CapabilityMetadata>, capability_id: &str) -> (r: Result<Detail, CommandError>)
        ensures
            match r {
                Ok(d) => d.title@ == capability_id@ && fields_view(d.fields@) == match info_entry(
                    if config.capabilities@.contains_key(capability_id@) {
                        Some(config.capabilities@[capability_id@])
                    } else {
                        None
                    },
                    caps@,
                    capability_id@,
                ) {
                    Some(cap) => info_fields(
                        cap,
                        if config.capabilities@.contains_key(capability_id@) {
                            Some(config.capabilities@[capability_id@])
                        } else {
                            None
                        },
                    ),
                    None => seq![("Note"@, "Configured but its type is not found in the bundled registry."@)],
                } && members_view(d.settings@) == match info_entry(
                    if config.capabilities@.contains_key(capability_id@) {
                        Some(config.capabilities@[capability_id@])
                    } else {
                        None
                    },
                    caps@,
                    capability_id@,
                ) {
                    Some(_) if config.capabilities@.contains_key(capability_id@) => config_settings(
                        config.capabilities@[capability_id@].config,
                    ),
                    _ => Seq::empty(),
                },
                Err(e) => !config.capabilities@.contains_key(capability_id@) && !caps@.contains_key(capability_id@)
                    && e.message@ == "Capability '"@ + capability_id@ + "' not found in registry."@,
            },
            r is Err <==> (!config.capabilities@.contains_key(capability_id@) && !caps@.contains_key(
                capability_id@,
            )),
    {
        let configured = config.get_capability(capability_id);
        let entry = match configured {
            Some(c) => match caps.get(c.capability_type.as_str()) {
                Some(e) => Some(e),
                None => caps.get(capability_id),
            },
            None => caps.get(capability_id),
        };
        match entry {
            Some(cap) => {
                let mut fields: Vec<(String, String)> = Vec::new();
                let mut settings: Vec<(String, JsonValue)> = Vec::new();
                push_field(&mut fields, "Name", crate::text::owned(cap.name.as_str()));
                push_field(&mut fields, "Description", crate::text::owned(cap.description.as_str()));
                if cap.tags.len() > 0 {
                    push_field(&mut fields, "Tags", str_join(&cap.tags, ", "));
                }
                match configured {
                    Some(c) => {
                        push_field(&mut fields, "Type", crate::text::owned(c.capability_type.as_str()));
                        settings = config_members(&c.config);
                    },
                    None => {},
                }
                Ok(Detail { title: crate::text::owned(capability_id), fields, settings })
            },
            None => {
                if configured.is_some() {
                    let mut fields: Vec<(String, String)> = Vec::new();
                    push_field(
                        &mut fields,
                        "Note",
                        "Configured but its type is not found in the bundled registry.".to_string(),
                    );
                    Ok(Detail { title: crate::text::owned(capability_id), fields, settings: Vec::new() })
                } else {
                    let a = join2("Capability '", capability_id);
                    Err(CommandError { message: join2(a.as_str(), "' not found in registry."), hint: None })
                }
            },
        }
    }

    /// Forgets the capability `capability_id`; refused when none is
    /// configured under that id. The message says what was done.
    pub fn remove(config: &mut Config, capability_id: &str) -> (r: Result<String, CommandError>)
        ensures
            match r {
                Ok(msg) => old(config).capabilities@.contains_key(capability_id@) && final(config).capabilities@
                    == old(config).capabilities@.remove(capability_id@) && msg@ == "Capability '"@
                    + capability_id@ + "' removed."@,
                Err(e) => !old(config).capabilities@.contains_key(capability_id@)
                    && final(config).capabilities@ == old(config).capabilities@ && e.message@
                    == "No capability configured with id '"@ + capability_id@ + "'. Nothing to remove."@,
            },
            final(config).models@ == old(config).models@,
            final(config).providers@ == old(config).providers@,
            final(config).launchers@ == old(config).launchers@,
            final(config).tools@ == old(config).tools@,
    {
        if config.get_capability(capability_id).is_none() {
            let a = join2("No capability configured with id '", capability_id);
            return Err(CommandError { message: join2(a.as_str(), "'. Nothing to remove."), hint: None });
        }
        config.remove_capability(capability_id);
        let a = join2("Capability '", capability_id);
        Ok(join2(a.as_str(), "' removed."))
    }
}

} // verus!
