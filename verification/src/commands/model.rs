//! The `model` commands: searching and listing the model catalog, the
//! configured models, and what is known of one model.
use vstd::prelude::*;

use crate::commands::capability::fields_view;
use crate::commands::counted_title;
use crate::commands::headers_view;
use crate::commands::lemma_rows_of_where_distinct;
use crate::commands::lemma_sorted_lists_where;
use crate::commands::lists_rows;
use crate::commands::restrict;
use crate::commands::rows_of_where;
use crate::commands::rows_view;
use crate::commands::sort_rows;
use crate::commands::sorted_by;
use crate::commands::CommandError;
use crate::commands::Detail;
use crate::commands::Table;
use crate::config::Config;
use crate::config::ModelConfig;
use crate::models::base::ModelMetadata;
use crate::models::base::ModelType;
use crate::providers::base::ProviderMetadata;
use crate::registry::Factory;
use crate::text::contains_seq;
use crate::text::debug_escaped;
use crate::text::decimal;
use crate::text::eq_ignore_ascii_case;
use crate::text::join2;
use crate::text::str_eq;
use crate::text::joined;
use crate::text::lowercase;
use crate::text::str_contains;
use crate::text::str_eq_ignore_ascii_case;
use crate::text::str_join;
use crate::text::string_views;
use crate::text::to_lowercase;
use crate::text::u64_to_string;

use crate::strmap::lists_map;

verus! {

broadcast use crate::text::group_views;

/// What a command shows: a table, or a message when there is nothing to tabulate.
#[derive(Debug)]
pub enum Output {
    Table(Table),
    Info(String),
}

/// The `model` commands.
pub struct ModelCommands;

/// A parameter count in whole billions, followed by `B`.
pub open spec fn size_text(size: u64) -> Seq<char> {
    decimal((size / 1_000_000_000) as nat) + "B"@
}

/// A catalog row: id, family, size, context length and type.
pub open spec fn model_row(id: Seq<char>, m: ModelMetadata) -> Seq<Seq<char>> {
    seq![id, m.family@, size_text(m.size), decimal(m.context_length as nat), m.model_type.display_spec()]
}

/// `model_row`, as a function value.
pub open spec fn model_row_fn() -> spec_fn(Seq<char>, ModelMetadata) -> Seq<Seq<char>> {
    |id: Seq<char>, m: ModelMetadata| model_row(id, m)
}

/// The text fields a search looks into besides the id: family, description, tags.
pub open spec fn search_fields(m: ModelMetadata) -> Seq<Seq<char>> {
    seq![m.family@] + match m.description {
        Some(d) => seq![d@],
        None => Seq::empty(),
    } + string_views(m.tags@)
}

/// The model `id` matches `query`: its id or one of its text fields holds
/// the query, both lower-cased.
pub open spec fn model_matches(id: Seq<char>, m: ModelMetadata, query: Seq<char>) -> bool {
    contains_seq(lowercase(id), lowercase(query)) || exists|i: int|
        0 <= i < search_fields(m).len() && #[trigger] contains_seq(lowercase(search_fields(m)[i]), lowercase(query))
}

/// `model_matches`, as a function value.
pub open spec fn matches_fn(query: Seq<char>) -> spec_fn(Seq<char>, ModelMetadata) -> bool {
    |id: Seq<char>, m: ModelMetadata| model_matches(id, m, query)
}

/// The model is of type `filter`, or there is no filter.
pub open spec fn type_filter_fn(filter: Option<ModelType>) -> spec_fn(Seq<char>, ModelMetadata) -> bool {
    |id: Seq<char>, m: ModelMetadata| match filter {
        Some(t) => m.model_type == t,
        None => true,
    }
}

/// The provider of a configured model, as listed: its id, or `"None"`.
pub open spec fn provider_text(c: ModelConfig) -> Seq<char> {
    match c.provider_id {
        Some(p) => p@,
        None => "None"@,
    }
}

/// A row of the configured models: the catalog row of the model, then its provider.
pub open spec fn list_row(models: Map<Seq<char>, ModelMetadata>, id: Seq<char>, c: ModelConfig) -> Seq<Seq<char>> {
    model_row(id, models[id]).push(provider_text(c))
}

/// `list_row`, as a function value.
pub open spec fn list_row_fn(models: Map<Seq<char>, ModelMetadata>) -> spec_fn(Seq<char>, ModelConfig) -> Seq<Seq<char>> {
    |id: Seq<char>, c: ModelConfig| list_row(models, id, c)
}

/// A configured model is listed when the catalog knows it and it passes the type filter.
pub open spec fn listed_fn(models: Map<Seq<char>, ModelMetadata>, filter: Option<ModelType>) -> spec_fn(Seq<char>, ModelConfig) -> bool {
    |id: Seq<char>, c: ModelConfig| models.contains_key(id) && match filter {
        Some(t) => models[id].model_type == t,
        None => true,
    }
}

fn model_row_exec(id: &str, m: &ModelMetadata) -> (r: Vec<String>)
    ensures
        string_views(r@) == model_row(id@, *m),
{
    let size = join2(u64_to_string(m.size / 1_000_000_000).as_str(), "B");
    let mut r: Vec<String> = Vec::new();
    r.push(crate::text::owned(id));
    r.push(crate::text::owned(m.family.as_str()));
    r.push(size);
    r.push(u64_to_string(m.context_length));
    r.push(m.model_type.display());
    assert(string_views(r@) =~= model_row(id@, *m));
    r
}

fn model_matches_exec(id: &str, m: &ModelMetadata, query_lower: &str, query: &str) -> (b: bool)
    requires
        query_lower@ == lowercase(query@),
    ensures
        b == model_matches(id@, *m, query@),
{
    if str_contains(to_lowercase(id).as_str(), query_lower) {
        return true;
    }
    let mut fields: Vec<&str> = Vec::new();
    fields.push(m.family.as_str());
    match &m.description {
        Some(d) => fields.push(d.as_str()),
        None => {},
    }
    let ghost head = crate::text::str_views(fields@);
    let mut t: usize = 0;
    while t < m.tags.len()
        invariant
            t <= m.tags@.len(),
            crate::text::str_views(fields@) == head + string_views(m.tags@).take(t as int),
        decreases m.tags@.len() - t,
    {
        let ghost before = crate::text::str_views(fields@);
        fields.push(m.tags[t].as_str());
        assert(crate::text::str_views(fields@) =~= before.push(m.tags@[t as int]@));
        assert(string_views(m.tags@).take(t + 1) =~= string_views(m.tags@).take(t as int).push(m.tags@[t as int]@));
        assert(crate::text::str_views(fields@) =~= head + string_views(m.tags@).take(t + 1));
        t += 1;
    }
    proof {
        assert(string_views(m.tags@).take(t as int) =~= string_views(m.tags@));
        let sf = search_fields(*m);
        if m.description is Some {
            assert(head =~= seq![m.family@, m.description->0@]);
        } else {
            assert(head =~= seq![m.family@]);
        }
        assert(crate::text::str_views(fields@) =~= sf);
    }
    let mut i: usize = 0;
    while i < fields.len()
        invariant
            i <= fields@.len(),
            crate::text::str_views(fields@) == search_fields(*m),
            query_lower@ == lowercase(query@),
            forall|k: int|
                0 <= k < i ==> !#[trigger] contains_seq(lowercase(search_fields(*m)[k]), lowercase(query@)),
        decreases fields@.len() - i,
    {
        if str_contains(to_lowercase(fields[i]).as_str(), query_lower) {
            assert(crate::text::str_views(fields@)[i as int] == fields@[i as int]@);
            return true;
        }
        assert(crate::text::str_views(fields@)[i as int] == fields@[i as int]@);
        i += 1;
    }
    false
}

/// The model's type passes the filter.
fn passes_filter(m: &ModelMetadata, filter: &Option<ModelType>) -> (b: bool)
    ensures
        b == match *filter {
            Some(t) => m.model_type == t,
            None => true,
        },
{
    match filter {
        Some(t) => m.model_type == *t,
        None => true,
    }
}

/// A variant as the detail view shows it: `"format / precision (x.y GB)"`.
pub open spec fn variant_text(v: crate::models::base::ModelVariant) -> Seq<char> {
    v.format@ + " / "@ + v.precision@ + " ("@ + decimal((v.size_decigb / 10) as nat) + "."@ + decimal(
        (v.size_decigb % 10) as nat,
    ) + " GB)"@
}

/// A parameter count in billions with two decimals (rounded half up), as in `"3.46"`.
pub open spec fn billions_text(size: u64) -> Seq<char> {
    let h = (size as nat + 5_000_000) / 10_000_000;
    decimal(h / 100) + "."@ + decimal((h % 100) / 10) + decimal(h % 10)
}

/// An optional string as Rust's `Debug` shows it: `None`, or `Some("...")`
/// with the text escaped (see `debug_escaped`).
pub open spec fn debug_option(o: Option<String>) -> Seq<char> {
    match o {
        Some(s) => "Some(\""@ + debug_escaped(s@) + "\")"@,
        None => "None"@,
    }
}

/// The fields `info` shows for model `m` (configured as `configured`, if it is).
pub open spec fn info_fields(m: ModelMetadata, configured: Option<ModelConfig>) -> Seq<(Seq<char>, Seq<char>)> {
    let base = seq![
        ("Family"@, m.family@),
        ("Version"@, m.version@),
        ("Size"@, decimal(m.size as nat) + "B parameters ("@ + billions_text(m.size) + "B)"@),
        ("Context Length"@, decimal(m.context_length as nat) + " tokens"@),
        ("Type"@, m.model_type.display_spec()),
        ("Hugging Face"@, m.huggingface_repo@),
    ];
    let with_desc = match m.description {
        Some(d) => base.push(("Description"@, d@)),
        None => base,
    };
    let with_tags = if m.tags@.len() > 0 {
        with_desc.push(("Tags"@, joined(string_views(m.tags@), ", "@)))
    } else {
        with_desc
    };
    let with_functions = with_tags.push(
        ("Variants"@, joined(Seq::new(m.variants@.len(), |i: int| variant_text(m.variants@[i])), ", "@)),
    ).push(
        (
            "Supported Functions"@,
            joined(
                Seq::new(m.supported_functions@.len(), |i: int| m.supported_functions@[i].display_spec()),
                ", "@,
            ),
        ),
    );
    match configured {
        Some(c) => with_functions.push(("Config: Provider"@, debug_option(c.provider_id))).push(
            ("Config: Variant"@, debug_option(c.variant)),
        ).push(("Config: Enabled"@, if c.enabled {
            "true"@
        } else {
            "false"@
        })),
        None => with_functions,
    }
}

fn debug_option_exec(o: &Option<String>) -> (s: String)
    ensures
        s@ == debug_option(*o),
{
    match o {
        Some(t) => {
            let q = crate::text::debug_quoted(t.as_str());
            let a = join2("Some(", q.as_str());
            let r = join2(a.as_str(), ")");
            proof {
                reveal_strlit("Some(");
                reveal_strlit(")");
                reveal_strlit("\"");
                reveal_strlit("Some(\"");
                reveal_strlit("\")");
                assert(r@ =~= "Some(\""@ + debug_escaped(t@) + "\")"@);
            }
            r
        },
        None => "None".to_string(),
    }
}

fn billions_text_exec(size: u64) -> (s: String)
    ensures
        s@ == billions_text(size),
{
    let h: u64 = size / 10_000_000 + if size % 10_000_000 >= 5_000_000 {
        1
    } else {
        0
    };
    assert(h == (size as nat + 5_000_000) / 10_000_000) by (nonlinear_arith)
        requires
            h == size / 10_000_000 + if size % 10_000_000 >= 5_000_000 {
                1int
            } else {
                0int
            },
    ;
    let a = join2(u64_to_string(h / 100).as_str(), ".");
    let b = join2(a.as_str(), u64_to_string((h % 100) / 10).as_str());
    join2(b.as_str(), u64_to_string(h % 10).as_str())
}

fn push_field(fields: &mut Vec<(String, String)>, label: &str, value: String)
    ensures
        fields_view(final(fields)@) == fields_view(old(fields)@).push((label@, value@)),
{
    fields.push((label.to_string(), value));
    assert(fields_view(fields@) =~= fields_view(old(fields)@).push((label@, value@)));
}

/// The refusal of a model the catalog does not know: the message names it,
/// the hint lists the catalog's models.
pub open spec fn model_not_found(e: CommandError, models: Map<Seq<char>, ModelMetadata>, model_id: Seq<char>) -> bool {
    &&& e.message@ == "Model '"@ + model_id + "' not found in registry."@
    &&& e.hint matches Some(h) && exists|pairs: Seq<(String, ModelMetadata)>|
        lists_map(pairs, models) && h@ == "Available models: "@ + joined(
            Seq::new(pairs.len(), |i: int| pairs[i].0@),
            ", "@,
        )
}

fn not_found_error(models: &Factory<ModelMetadata>, model_id: &str) -> (e: CommandError)
    ensures
        model_not_found(e, models@, model_id@),
{
    let a = join2("Model '", model_id);
    let pairs = models.list();
    let mut ids: Vec<String> = Vec::new();
    let mut i: usize = 0;
    while i < pairs.len()
        invariant
            i <= pairs@.len(),
            ids@.len() == i,
            forall|j: int| 0 <= j < i ==> #[trigger] ids@[j]@ == pairs@[j].0@,
        decreases pairs@.len() - i,
    {
        ids.push(crate::text::owned(pairs[i].0.as_str()));
        i += 1;
    }
    assert(string_views(ids@) =~= Seq::new(pairs@.len(), |j: int| pairs@[j].0@));
    let hint = join2("Available models: ", str_join(&ids, ", ").as_str());
    CommandError { message: join2(a.as_str(), "' not found in registry."), hint: Some(hint) }
}

/// The variant a model is configured with: its format and precision, `"format/precision"`.
pub open spec fn variant_choice(v: crate::models::base::ModelVariant) -> Seq<char> {
    v.format@ + "/"@ + v.precision@
}

/// Some tag of `m` holds `query`, both lower-cased.
pub open spec fn tag_matches(m: ModelMetadata, query: Seq<char>) -> bool {
    exists|t: int| 0 <= t < m.tags@.len() && contains_seq(lowercase(#[trigger] m.tags@[t]@), lowercase(query))
}

/// Search looks in a model's id, family, description and tags: a catalog
/// model is found when any of them holds the query, both lower-cased, and
/// only then.
pub proof fn law_search_looks_in_every_field(models: Map<Seq<char>, ModelMetadata>, query: Seq<char>)
    ensures
        forall|k: Seq<char>|
            #![trigger restrict(models, matches_fn(query)).contains_key(k)]
            models.contains_key(k) ==> (restrict(models, matches_fn(query)).contains_key(k) <==> (
            contains_seq(lowercase(k), lowercase(query))
            || contains_seq(lowercase(models[k].family@), lowercase(query))
            || (models[k].description matches Some(d) && contains_seq(lowercase(d@), lowercase(query)))
            || tag_matches(models[k], query))),
{
    assert forall|k: Seq<char>| #![trigger restrict(models, matches_fn(query)).contains_key(k)]
        models.contains_key(k) implies (restrict(models, matches_fn(query)).contains_key(k) <==> (
        contains_seq(lowercase(k), lowercase(query))
        || contains_seq(lowercase(models[k].family@), lowercase(query))
        || (models[k].description matches Some(d) && contains_seq(lowercase(d@), lowercase(query)))
        || tag_matches(models[k], query))) by {
        let m = models[k];
        let sf = search_fields(m);
        let dl: int = match m.description {
            Some(_) => 1,
            None => 0,
        };
        assert(sf.len() == 1 + dl + m.tags@.len());
        assert(sf[0] == m.family@);
        match m.description {
            Some(d) => {
                assert(sf[1] == d@);
            },
            None => {},
        }
        assert forall|t: int| 0 <= t < m.tags@.len() implies sf[1 + dl + t] == #[trigger] m.tags@[t]@ by {
            assert(string_views(m.tags@)[t] == m.tags@[t]@);
        }
        if tag_matches(m, query) {
            let t = choose|t: int| 0 <= t < m.tags@.len() && contains_seq(lowercase(#[trigger] m.tags@[t]@), lowercase(query));
            assert(contains_seq(lowercase(sf[1 + dl + t]), lowercase(query)));
        }
        if contains_seq(lowercase(m.family@), lowercase(query)) {
            assert(contains_seq(lowercase(sf[0]), lowercase(query)));
        }
        match m.description {
            Some(d) => {
                if contains_seq(lowercase(d@), lowercase(query)) {
                    assert(contains_seq(lowercase(sf[1]), lowercase(query)));
                }
            },
            None => {},
        }
        if exists|i: int| 0 <= i < sf.len() && #[trigger] contains_seq(lowercase(sf[i]), lowercase(query)) {
            let i = choose|i: int| 0 <= i < sf.len() && #[trigger] contains_seq(lowercase(sf[i]), lowercase(query));
            if i >= 1 + dl {
                let t = i - 1 - dl;
                assert(sf[i] == m.tags@[t]@);
                assert(tag_matches(m, query));
            } else if i == 0 {
            } else {
                assert(m.description is Some);
            }
        }
    }
}

impl ModelCommands {
    /// The catalog models matching `query` (see `model_matches`), one row each,
    /// by id; a message instead when none matches.
    pub fn search(models: &Factory<ModelMetadata>, query: &str) -> (r: Output)
        ensures
            match r {
                Output::Table(t) => {
                    &&& t.title@ == "Search results for '"@ + query@ + "' ("@ + decimal(t.rows@.len())
                        + " models)"@
                    &&& headers_view(t) == seq!["ID"@, "FAMILY"@, "SIZE"@, "CONTEXT"@, "TYPE"@]
                    &&& t.rows@.len() > 0
                    &&& sorted_by(rows_view(t.rows@), seq![0int])
                    &&& lists_rows(rows_view(t.rows@), restrict(models@, matches_fn(query@)), model_row_fn())
                },
                Output::Info(msg) => {
                    &&& msg@ == "No models found matching '"@ + query@ + "'."@
                    &&& forall|k: Seq<char>| !#[trigger] restrict(models@, matches_fn(query@)).contains_key(k)
                    &&& forall|k: Seq<char>| #[trigger] models@.contains_key(k) ==> !tag_matches(models@[k], query@)
                },
            },
    {
        let ghost keep = matches_fn(query@);
        let ghost row = model_row_fn();
        let q = to_lowercase(query);
        let pairs = models.list();
        let mut rows: Vec<Vec<String>> = Vec::new();
        let mut i: usize = 0;
        while i < pairs.len()
            invariant
                i <= pairs@.len(),
                q@ == lowercase(query@),
                keep == matches_fn(query@),
                row == model_row_fn(),
                rows_view(rows@) == rows_of_where(pairs@.take(i as int), keep, row),
            decreases pairs@.len() - i,
        {
            proof {
                assert(pairs@.take(i + 1).drop_last() =~= pairs@.take(i as int));
                assert(pairs@.take(i + 1).last() == pairs@[i as int]);
            }
            if model_matches_exec(pairs[i].0.as_str(), &pairs[i].1, q.as_str(), query) {
                let ghost before = rows_view(rows@);
                let r = model_row_exec(pairs[i].0.as_str(), &pairs[i].1);
                rows.push(r);
                assert(rows_view(rows@) =~= before.push(string_views(r@)));
            }
            i += 1;
        }
        let cols = vec![0usize];
        proof {
            assert(pairs@.take(i as int) =~= pairs@);
            assert(cols@.map_values(|c: usize| c as int) =~= seq![0int]);
            assert(seq![0int][0] == 0);
            lemma_rows_of_where_distinct(pairs@, keep, row, seq![0int]);
            crate::commands::lemma_rows_of_where(pairs@, keep, row);
            let pre = rows_of_where(pairs@, keep, row);
            assert forall|a: int, k: int| 0 <= a < pre.len() && 0 <= k < seq![0int].len() implies 0 <= #[trigger] seq![0int][k] < #[trigger] pre[a].len() by {
                assert(crate::commands::row_of_kept(pairs@, keep, row, pre[a]));
            }
        }
        let sorted = sort_rows(rows, &cols);
        proof {
            lemma_sorted_lists_where(rows_view(sorted@), pairs@, models@, keep, row);
        }
        proof {
            law_search_looks_in_every_field(models@, query@);
        }
        if sorted.len() == 0 {
            proof {
                assert forall|k: Seq<char>| #[trigger] models@.contains_key(k) implies !tag_matches(models@[k], query@) by {
                    if restrict(models@, matches_fn(query@)).contains_key(k) {
                        let j = choose|j: int| 0 <= j < rows_view(sorted@).len() && rows_view(sorted@)[j][0] == k;
                    }
                }
            }
            let a = join2("No models found matching '", query);
            return Output::Info(join2(a.as_str(), "'."));
        }
        let a0 = join2("Search results for '", query);
        let a = join2(a0.as_str(), "' (");
        let title = counted_title(a.as_str(), sorted.len(), " models)");
        Output::Table(
            Table {
                title,
                headers: vec![
                    "ID".to_string(),
                    "FAMILY".to_string(),
                    "SIZE".to_string(),
                    "CONTEXT".to_string(),
                    "TYPE".to_string(),
                ],
                rows: sorted,
            },
        )
    }

    /// The catalog models of type `filter` (all of them without a filter),
    /// one row each, by id; a message instead when there are none.
    pub fn catalog(models: &Factory<ModelMetadata>, filter: Option<ModelType>) -> (r: Output)
        ensures
            match r {
                Output::Table(t) => {
                    &&& t.title@ == "Model Catalog ("@ + decimal(t.rows@.len()) + " models)"@
                    &&& headers_view(t) == seq!["ID"@, "FAMILY"@, "SIZE"@, "CONTEXT"@, "TYPE"@]
                    &&& t.rows@.len() > 0
                    &&& sorted_by(rows_view(t.rows@), seq![0int])
                    &&& lists_rows(rows_view(t.rows@), restrict(models@, type_filter_fn(filter)), model_row_fn())
                },
                Output::Info(msg) => {
                    &&& msg@ == "No models found"@ + match filter {
                        Some(t) => " matching type: "@ + t.display_spec(),
                        None => Seq::empty(),
                    } + "."@
                    &&& forall|k: Seq<char>| !#[trigger] restrict(models@, type_filter_fn(filter)).contains_key(k)
                },
            },
    {
        let ghost keep = type_filter_fn(filter);
        let ghost row = model_row_fn();
        let pairs = models.list();
        let mut rows: Vec<Vec<String>> = Vec::new();
        let mut i: usize = 0;
        while i < pairs.len()
            invariant
                i <= pairs@.len(),
                keep == type_filter_fn(filter),
                row == model_row_fn(),
                rows_view(rows@) == rows_of_where(pairs@.take(i as int), keep, row),
            decreases pairs@.len() - i,
        {
            proof {
                assert(pairs@.take(i + 1).drop_last() =~= pairs@.take(i as int));
                assert(pairs@.take(i + 1).last() == pairs@[i as int]);
            }
            if passes_filter(&pairs[i].1, &filter) {
                let ghost before = rows_view(rows@);
                let r = model_row_exec(pairs[i].0.as_str(), &pairs[i].1);
                rows.push(r);
                assert(rows_view(rows@) =~= before.push(string_views(r@)));
            }
            i += 1;
        }
        let cols = vec![0usize];
        proof {
            assert(pairs@.take(i as int) =~= pairs@);
            assert(cols@.map_values(|c: usize| c as int) =~= seq![0int]);
            assert(seq![0int][0] == 0);
            lemma_rows_of_where_distinct(pairs@, keep, row, seq![0int]);
            crate::commands::lemma_rows_of_where(pairs@, keep, row);
            let pre = rows_of_where(pairs@, keep, row);
            assert forall|a: int, k: int| 0 <= a < pre.len() && 0 <= k < seq![0int].len() implies 0 <= #[trigger] seq![0int][k] < #[trigger] pre[a].len() by {
                assert(crate::commands::row_of_kept(pairs@, keep, row, pre[a]));
            }
        }
        let sorted = sort_rows(rows, &cols);
        proof {
            lemma_sorted_lists_where(rows_view(sorted@), pairs@, models@, keep, row);
        }
        if sorted.len() == 0 {
            let msg = match &filter {
                Some(t) => {
                    let a = join2("No models found matching type: ", t.display().as_str());
                    join2(a.as_str(), ".")
                },
                None => "No models found.".to_string(),
            };
            proof {
                reveal_strlit("No models found matching type: ");
                reveal_strlit("No models found.");
                reveal_strlit("No models found");
                reveal_strlit(" matching type: ");
                reveal_strlit(".");
            }
            return Output::Info(msg);
        }
        let title = counted_title("Model Catalog (", sorted.len(), " models)");
        Output::Table(
            Table {
                title,
                headers: vec![
                    "ID".to_string(),
                    "FAMILY".to_string(),
                    "SIZE".to_string(),
                    "CONTEXT".to_string(),
                    "TYPE".to_string(),
                ],
                rows: sorted,
            },
        )
    }

    /// The configured models the catalog knows, of type `filter` when one is
    /// given, one row each (catalog columns and provider), by id.
    pub fn list(config: &Config, models: &Factory<ModelMetadata>, filter: Option<ModelType>) -> (t: Table)
        ensures
            t.title@ == "Configured Models ("@ + decimal(t.rows@.len()) + " models)"@,
            headers_view(t) == seq!["ID"@, "FAMILY"@, "SIZE"@, "CONTEXT"@, "TYPE"@, "PROVIDER"@],
            sorted_by(rows_view(t.rows@), seq![0int]),
            lists_rows(rows_view(t.rows@), restrict(config.models@, listed_fn(models@, filter)), list_row_fn(models@)),
    {
        let ghost keep = listed_fn(models@, filter);
        let ghost row = list_row_fn(models@);
        let pairs = config.models.pairs();
        let mut rows: Vec<Vec<String>> = Vec::new();
        let mut i: usize = 0;
        while i < pairs.len()
            invariant
                i <= pairs@.len(),
                keep == listed_fn(models@, filter),
                row == list_row_fn(models@),
                rows_view(rows@) == rows_of_where(pairs@.take(i as int), keep, row),
            decreases pairs@.len() - i,
        {
            proof {
                assert(pairs@.take(i + 1).drop_last() =~= pairs@.take(i as int));
                assert(pairs@.take(i + 1).last() == pairs@[i as int]);
            }
            match models.get(pairs[i].0.as_str()) {
                Some(m) => {
                    if passes_filter(m, &filter) {
                        let ghost before = rows_view(rows@);
                        let mut r = model_row_exec(pairs[i].0.as_str(), m);
                        let provider = match &pairs[i].1.provider_id {
                            Some(p) => crate::text::owned(p.as_str()),
                            None => "None".to_string(),
                        };
                        let ghost r0 = string_views(r@);
                        r.push(provider);
                        assert(string_views(r@) =~= r0.push(provider_text(pairs@[i as int].1)));
                        rows.push(r);
                        assert(rows_view(rows@) =~= before.push(string_views(r@)));
                    }
                },
                None => {},
            }
            i += 1;
        }
        let cols = vec![0usize];
        proof {
            assert(pairs@.take(i as int) =~= pairs@);
            assert(cols@.map_values(|c: usize| c as int) =~= seq![0int]);
            assert(seq![0int][0] == 0);
            lemma_rows_of_where_distinct(pairs@, keep, row, seq![0int]);
            crate::commands::lemma_rows_of_where(pairs@, keep, row);
            let pre = rows_of_where(pairs@, keep, row);
            assert forall|a: int, k: int| 0 <= a < pre.len() && 0 <= k < seq![0int].len() implies 0 <= #[trigger] seq![0int][k] < #[trigger] pre[a].len() by {
                assert(crate::commands::row_of_kept(pairs@, keep, row, pre[a]));
            }
        }
        let sorted = sort_rows(rows, &cols);
        proof {
            lemma_sorted_lists_where(rows_view(sorted@), pairs@, config.models@, keep, row);
        }
        let title = counted_title("Configured Models (", sorted.len(), " models)");
        Table {
            title,
            headers: vec![
                "ID".to_string(),
                "FAMILY".to_string(),
                "SIZE".to_string(),
                "CONTEXT".to_string(),
                "TYPE".to_string(),
                "PROVIDER".to_string(),
            ],
            rows: sorted,
        }
    }

    /// The model configuration that setting up `model_id` with its variant
    /// `variant_index` and the provider instance `provider_id` gives: refused
    /// for a model the catalog does not know; nothing when the model is
    /// already configured and enabled and is not to be overwritten; otherwise
    /// the model, enabled, with that provider and variant.
    pub fn setup_config(
        config: &Config,
        models: &Factory<ModelMetadata>,
        model_id: &str,
        variant_index: usize,
        provider_id: Option<String>,
        overwrite: bool,
    ) -> (r: Result<Option<ModelConfig>, CommandError>)
        requires
            models@.contains_key(model_id@) ==> variant_index < models@[model_id@].variants@.len(),
        ensures
            !models@.contains_key(model_id@) ==> (r matches Err(e) && model_not_found(e, models@, model_id@)),
            models@.contains_key(model_id@) ==> if config.models@.contains_key(model_id@)
                && config.models@[model_id@].enabled && !overwrite {
                r matches Ok(None)
            } else {
                r matches Ok(Some(mc)) && mc.model_id@ == model_id@ && mc.provider_id == provider_id
                    && mc.enabled && (mc.variant matches Some(v) && v@ == variant_choice(
                    models@[model_id@].variants@[variant_index as int],
                ))
            },
    {
        match models.get(model_id) {
            Some(m) => {
                match config.get_model(model_id) {
                    Some(existing) => {
                        if existing.enabled && !overwrite {
                            return Ok(None);
                        }
                    },
                    None => {},
                }
                let v = &m.variants[variant_index];
                let a = join2(v.format.as_str(), "/");
                let variant = join2(a.as_str(), v.precision.as_str());
                Ok(Some(ModelConfig { model_id: crate::text::owned(model_id), provider_id, variant: Some(variant), enabled: true }))
            },
            None => Err(not_found_error(models, model_id)),
        }
    }

    /// What the catalog knows of `model_id`, with its configuration when it
    /// is configured; refused for a model the catalog does not know.
    pub fn info(config: &Config, models: &Factory<ModelMetadata>, model_id: &str) -> (r: Result<Detail, CommandError>)
        ensures
            match r {
                Ok(d) => models@.contains_key(model_id@) && d.title@ == model_id@ && fields_view(d.fields@)
                    == info_fields(
                    models@[model_id@],
                    if config.models@.contains_key(model_id@) {
                        Some(config.models@[model_id@])
                    } else {
                        None
                    },
                ) && d.settings@.len() == 0,
                Err(e) => !models@.contains_key(model_id@) && model_not_found(e, models@, model_id@),
            },
    {
        match models.get(model_id) {
            Some(m) => {
                let mut fields: Vec<(String, String)> = Vec::new();
                push_field(&mut fields, "Family", crate::text::owned(m.family.as_str()));
                push_field(&mut fields, "Version", crate::text::owned(m.version.as_str()));
                let a = join2(u64_to_string(m.size).as_str(), "B parameters (");
                let b = join2(a.as_str(), billions_text_exec(m.size).as_str());
                push_field(&mut fields, "Size", join2(b.as_str(), "B)"));
                push_field(&mut fields, "Context Length", join2(u64_to_string(m.context_length).as_str(), " tokens"));
                push_field(&mut fields, "Type", m.model_type.display());
                push_field(&mut fields, "Hugging Face", crate::text::owned(m.huggingface_repo.as_str()));
                match &m.description {
                    Some(d) => push_field(&mut fields, "Description", crate::text::owned(d.as_str())),
                    None => {},
                }
                if m.tags.len() > 0 {
                    push_field(&mut fields, "Tags", str_join(&m.tags, ", "));
                }
                let mut vs: Vec<String> = Vec::new();
                let mut i: usize = 0;
                while i < m.variants.len()
                    invariant
                        i <= m.variants@.len(),
                        vs@.len() == i,
                        forall|j: int| 0 <= j < i ==> #[trigger] vs@[j]@ == variant_text(m.variants@[j]),
                    decreases m.variants@.len() - i,
                {
                    let v = &m.variants[i];
                    let a = join2(v.format.as_str(), " / ");
                    let b = join2(a.as_str(), v.precision.as_str());
                    let c = join2(b.as_str(), " (");
                    let d = join2(c.as_str(), u64_to_string(v.size_decigb / 10).as_str());
                    let e = join2(d.as_str(), ".");
                    let f = join2(e.as_str(), u64_to_string(v.size_decigb % 10).as_str());
                    vs.push(join2(f.as_str(), " GB)"));
                    i += 1;
                }
                assert(string_views(vs@) =~= Seq::new(m.variants@.len(), |i: int| variant_text(m.variants@[i])));
                push_field(&mut fields, "Variants", str_join(&vs, ", "));
                let mut fs: Vec<String> = Vec::new();
                let mut k: usize = 0;
                while k < m.supported_functions.len()
                    invariant
                        k <= m.supported_functions@.len(),
                        fs@.len() == k,
                        forall|j: int| 0 <= j < k ==> #[trigger] fs@[j]@ == m.supported_functions@[j].display_spec(),
                    decreases m.supported_functions@.len() - k,
                {
                    fs.push(m.supported_functions[k].display());
                    k += 1;
                }
                assert(string_views(fs@) =~= Seq::new(
                    m.supported_functions@.len(),
                    |i: int| m.supported_functions@[i].display_spec(),
                ));
                push_field(&mut fields, "Supported Functions", str_join(&fs, ", "));
                match config.get_model(model_id) {
                    Some(c) => {
                        push_field(&mut fields, "Config: Provider", debug_option_exec(&c.provider_id));
                        push_field(&mut fields, "Config: Variant", debug_option_exec(&c.variant));
                        let en = if c.enabled {
                            "true".to_string()
                        } else {
                            "false".to_string()
                        };
                        push_field(&mut fields, "Config: Enabled", en);
                    },
                    None => {},
                }
                Ok(Detail { title: crate::text::owned(model_id), fields, settings: Vec::new() })
            },
            None => Err(not_found_error(models, model_id)),
        }
    }
}

/// The model type a `--type` option names, if it names one.
pub open spec fn named_model_type(s: Seq<char>) -> Option<ModelType> {
    if s == "text"@ {
        Some(ModelType::Text)
    } else if s == "vision"@ {
        Some(ModelType::Vision)
    } else if s == "speech"@ {
        Some(ModelType::Speech)
    } else if s == "embedding"@ {
        Some(ModelType::Embedding)
    } else {
        None
    }
}

/// The filter a `--type` option asks for: none without the option, the
/// type it names, or the refusal of an unknown name.
pub fn parse_type_filter(option: Option<&str>) -> (r: Result<Option<ModelType>, String>)
    ensures
        match option {
            None => r matches Ok(None),
            Some(t) => match named_model_type(t@) {
                Some(mt) => r matches Ok(Some(x)) && x == mt,
                None => r matches Err(e) && e@ == "Unknown model type: "@ + t@
                    + ". Valid types: text, vision, speech, embedding"@,
            },
        },
{
    match option {
        None => Ok(None),
        Some(t) => {
            proof {
                reveal_strlit("text");
                reveal_strlit("vision");
                reveal_strlit("speech");
                reveal_strlit("embedding");
            }
            if str_eq(t, "text") {
                Ok(Some(ModelType::Text))
            } else if str_eq(t, "vision") {
                Ok(Some(ModelType::Vision))
            } else if str_eq(t, "speech") {
                Ok(Some(ModelType::Speech))
            } else if str_eq(t, "embedding") {
                Ok(Some(ModelType::Embedding))
            } else {
                let a = join2("Unknown model type: ", t);
                Err(join2(a.as_str(), ". Valid types: text, vision, speech, embedding"))
            }
        },
    }
}

/// What a model variant needs of a provider: its format and its precision.
pub struct VariantRequirement {
    pub format: String,
    pub precision: String,
}

impl VariantRequirement {
    /// A provider type can run the variant: it supports a format and a
    /// precision equal to the variant's up to ASCII case.
    pub open spec fn admits_type_spec(&self, metadata: ProviderMetadata) -> bool {
        &&& exists|i: int|
            0 <= i < metadata.supported_formats@.len() && eq_ignore_ascii_case(
                #[trigger] metadata.supported_formats@[i].display_spec(),
                self.format@,
            )
        &&& exists|j: int|
            0 <= j < metadata.supported_precisions@.len() && eq_ignore_ascii_case(
                #[trigger] metadata.supported_precisions@[j]@,
                self.precision@,
            )
    }

    /// Whether a provider type described by `metadata` can run the variant.
    pub fn admits_type(&self, metadata: &ProviderMetadata) -> (b: bool)
        ensures
            b == self.admits_type_spec(*metadata),
    {
        let mut format_ok = false;
        let mut i: usize = 0;
        while i < metadata.supported_formats.len()
            invariant
                i <= metadata.supported_formats@.len(),
                format_ok == exists|k: int|
                    0 <= k < i && eq_ignore_ascii_case(
                        #[trigger] metadata.supported_formats@[k].display_spec(),
                        self.format@,
                    ),
            decreases metadata.supported_formats@.len() - i,
        {
            if str_eq_ignore_ascii_case(metadata.supported_formats[i].display().as_str(), self.format.as_str()) {
                format_ok = true;
            }
            i += 1;
        }
        let mut precision_ok = false;
        let mut j: usize = 0;
        while j < metadata.supported_precisions.len()
            invariant
                j <= metadata.supported_precisions@.len(),
                precision_ok == exists|k: int|
                    0 <= k < j && eq_ignore_ascii_case(
                        #[trigger] metadata.supported_precisions@[k]@,
                        self.precision@,
                    ),
            decreases metadata.supported_precisions@.len() - j,
        {
            if str_eq_ignore_ascii_case(metadata.supported_precisions[j].as_str(), self.precision.as_str()) {
                precision_ok = true;
            }
            j += 1;
        }
        format_ok && precision_ok
    }
}


/// Search depends on the query only through its lower-cased form: two
/// queries that lower-case alike match the same models, and their result
/// tables, sorted by id, hold the same rows.
pub proof fn law_search_lowercase_only(
    models: Map<Seq<char>, ModelMetadata>,
    q1: Seq<char>,
    q2: Seq<char>,
    rows1: Seq<Seq<Seq<char>>>,
    rows2: Seq<Seq<Seq<char>>>,
)
    requires
        lowercase(q1) == lowercase(q2),
        sorted_by(rows1, seq![0int]),
        sorted_by(rows2, seq![0int]),
        lists_rows(rows1, restrict(models, matches_fn(q1)), model_row_fn()),
        lists_rows(rows2, restrict(models, matches_fn(q2)), model_row_fn()),
    ensures
        restrict(models, matches_fn(q1)) == restrict(models, matches_fn(q2)),
        rows1 == rows2,
{
    assert(restrict(models, matches_fn(q1)) =~= restrict(models, matches_fn(q2)));
    crate::commands::lemma_sorted_listing_unique(rows1, rows2, restrict(models, matches_fn(q1)), model_row_fn());
}

} // verus!
