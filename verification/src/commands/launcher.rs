//! The `launcher` commands: the catalog of launcher types, the configured
//! launchers, and removing one.
use vstd::prelude::*;

use crate::commands::counted_title;
use crate::commands::headers_view;
use crate::commands::lemma_rows_of_distinct;
use crate::commands::lemma_sorted_lists;
use crate::commands::lists_rows;
use crate::commands::rows_of;
use crate::commands::rows_view;
use crate::commands::sort_rows;
use crate::commands::sorted_by;
use crate::commands::CommandError;
use crate::commands::Table;
use crate::config::Config;
use crate::config::LauncherConfig;
use crate::json::json_get_str;
use crate::launchers::base::LauncherMetadata;
use crate::registry::Factory;
use crate::text::decimal;
use crate::text::join2;
use crate::text::string_views;

verus! {

broadcast use crate::text::group_views;

/// The `launcher` commands.
pub struct LauncherCommands;

/// A catalog row: the type's id and its default command.
pub open spec fn catalog_row(id: Seq<char>, m: LauncherMetadata) -> Seq<Seq<char>> {
    seq![id, m.default_command@]
}

/// The command a configured launcher runs, as listed: its `command_path`
/// setting, or `"(PATH)"` when it has none.
pub open spec fn listed_command(cfg: LauncherConfig) -> Seq<char> {
    match json_get_str(cfg.config, "command_path"@) {
        Some(p) => p,
        None => "(PATH)"@,
    }
}

/// A row of the configured launchers: id, type and command.
pub open spec fn list_row(id: Seq<char>, cfg: LauncherConfig) -> Seq<Seq<char>> {
    seq![id, cfg.launcher_type@, listed_command(cfg)]
}

/// `catalog_row`, as a function value.
pub open spec fn catalog_row_fn() -> spec_fn(Seq<char>, LauncherMetadata) -> Seq<Seq<char>> {
    |id: Seq<char>, m: LauncherMetadata| catalog_row(id, m)
}

/// `list_row`, as a function value.
pub open spec fn list_row_fn() -> spec_fn(Seq<char>, LauncherConfig) -> Seq<Seq<char>> {
    |id: Seq<char>, c: LauncherConfig| list_row(id, c)
}

impl LauncherCommands {
    /// The launcher types of `launchers`, one row each (id, default command), by id.
    pub fn catalog(launchers: &Factory<LauncherMetadata>) -> (t: Table)
        ensures
            t.title@ == "Launcher Catalog ("@ + decimal(t.rows@.len()) + " launchers)"@,
            headers_view(t) == seq!["ID"@, "DEFAULT COMMAND"@],
            sorted_by(rows_view(t.rows@), seq![0int]),
            lists_rows(rows_view(t.rows@), launchers@, catalog_row_fn()),
    {
        let ghost row = catalog_row_fn();
        let pairs = launchers.list();
        let mut rows: Vec<Vec<String>> = Vec::new();
        let mut i: usize = 0;
        while i < pairs.len()
            invariant
                i <= pairs@.len(),
                rows_view(rows@) == rows_of(pairs@, row).take(i as int),
                row == catalog_row_fn(),
            decreases pairs@.len() - i,
        {
            let r = crate::text::strings2(pairs[i].0.as_str(), pairs[i].1.default_command.as_str());
            let ghost before = rows_view(rows@);
            rows.push(r);
            assert(rows_view(rows@) =~= rows_of(pairs@, row).take(i + 1)) by {
                assert(rows_view(rows@) =~= before.push(string_views(r@)));
            }
            i += 1;
        }
        let cols = vec![0usize];
        proof {
            assert(rows_of(pairs@, row).take(i as int) =~= rows_of(pairs@, row));
            assert(cols@.map_values(|c: usize| c as int) =~= seq![0int]);
            assert(seq![0int][0] == 0);
            lemma_rows_of_distinct(pairs@, row, seq![0int]);
        }
        let sorted = sort_rows(rows, &cols);
        proof {
            lemma_sorted_lists(rows_view(sorted@), pairs@, launchers@, row);
        }
        let title = counted_title("Launcher Catalog (", sorted.len(), " launchers)");
        Table { title, headers: crate::text::strings2("ID", "DEFAULT COMMAND"), rows: sorted }
    }

    /// The configured launchers, one row each (id, type, command), by type then id.
    pub fn list(config: &Config) -> (t: Table)
        ensures
            t.title@ == "Configured Launchers ("@ + decimal(t.rows@.len()) + " launchers)"@,
            headers_view(t) == seq!["ID"@, "TYPE"@, "COMMAND"@],
            sorted_by(rows_view(t.rows@), seq![1int, 0int]),
            lists_rows(rows_view(t.rows@), config.launchers@, list_row_fn()),
    {
        let ghost row = list_row_fn();
        let pairs = config.launchers.pairs();
        let mut rows: Vec<Vec<String>> = Vec::new();
        let mut i: usize = 0;
        while i < pairs.len()
            invariant
                i <= pairs@.len(),
                rows_view(rows@) == rows_of(pairs@, row).take(i as int),
                row == list_row_fn(),
            decreases pairs@.len() - i,
        {
            let cfg = &pairs[i].1;
            let command = match cfg.config.get_str("command_path") {
                Some(p) => crate::text::owned(p),
                None => "(PATH)".to_string(),
            };
            proof {
                reveal_strlit("command_path");
            }
            let r = crate::text::strings3(pairs[i].0.as_str(), cfg.launcher_type.as_str(), command.as_str());
            let ghost before = rows_view(rows@);
            rows.push(r);
            assert(rows_view(rows@) =~= rows_of(pairs@, row).take(i + 1)) by {
                assert(rows_view(rows@) =~= before.push(string_views(r@)));
            }
            i += 1;
        }
        let cols = vec![1usize, 0usize];
        proof {
            assert(rows_of(pairs@, row).take(i as int) =~= rows_of(pairs@, row));
            assert(cols@.map_values(|c: usize| c as int) =~= seq![1int, 0int]);
            assert(seq![1int, 0int][1] == 0);
            lemma_rows_of_distinct(pairs@, row, seq![1int, 0int]);
        }
        let sorted = sort_rows(rows, &cols);
        proof {
            lemma_sorted_lists(rows_view(sorted@), pairs@, config.launchers@, row);
        }
        let title = counted_title("Configured Launchers (", sorted.len(), " launchers)");
        Table { title, headers: crate::text::strings3("ID", "TYPE", "COMMAND"), rows: sorted }
    }

    /// Forgets the launcher `launcher_id`; refused when none is configured
    /// under that id. The message says what was done.
    pub fn remove(config: &mut Config, launcher_id: &str) -> (r: Result<String, CommandError>)
        ensures
            match r {
                Ok(msg) => old(config).launchers@.contains_key(launcher_id@) && final(config).launchers@
                    == old(config).launchers@.remove(launcher_id@) && msg@ == "Launcher '"@ + launcher_id@
                    + "' removed."@,
                Err(e) => !old(config).launchers@.contains_key(launcher_id@) && final(config).launchers@
                    == old(config).launchers@ && e.message@ == "No launcher configured with id '"@
                    + launcher_id@ + "'. Nothing to remove."@,
            },
            final(config).models@ == old(config).models@,
            final(config).providers@ == old(config).providers@,
            final(config).capabilities@ == old(config).capabilities@,
            final(config).tools@ == old(config).tools@,
    {
        if config.get_launcher(launcher_id).is_none() {
            let a = join2("No launcher configured with id '", launcher_id);
            return Err(CommandError { message: join2(a.as_str(), "'. Nothing to remove."), hint: None });
        }
        config.remove_launcher(launcher_id);
        let a = join2("Launcher '", launcher_id);
        Ok(join2(a.as_str(), "' removed."))
    }
}

} // verus!
