//! Environment exports written to the user's shell profile, inside a marked
//! section that later runs replace or remove.
use vstd::prelude::*;

use crate::config::shell::detect_shell;
use crate::config::shell::ProfileSearch;
use crate::text::chars_of;
use crate::text::join2;
use crate::text::lines;
use crate::text::replace_all;
use crate::text::str_contains;
use crate::text::str_eq;
use crate::text::str_lines;
use crate::text::str_replace;
use crate::text::str_trim;
use crate::text::string_of_range;
use crate::text::contains_seq;
use crate::text::trim;
use crate::text::lemma_lines_no_newline;
use crate::text::lemma_lines_unlines;
use crate::text::lemma_unlines_append;
use crate::text::lemma_unlines_ends;
use crate::text::plain_line;
use crate::text::unlines;

verus! {

/// The line that opens the section of exports in a shell profile.
pub open spec fn marker_start() -> Seq<char> {
    "# === granite-cli exports start ==="@
}

/// The line that closes the section of exports in a shell profile.
pub open spec fn marker_end() -> Seq<char> {
    "# === granite-cli exports end ==="@
}

fn marker_start_exec() -> (s: &'static str)
    ensures
        s@ == marker_start(),
{
    "# === granite-cli exports start ==="
}

fn marker_end_exec() -> (s: &'static str)
    ensures
        s@ == marker_end(),
{
    "# === granite-cli exports end ==="
}

/// The profile text kept when the section is rewritten: scanning the lines,
/// a line whose trimmed text is the opening marker starts skipping (itself
/// included), one that is the closing marker stops it after itself. The
/// first component says whether the scan ended inside the section.
pub open spec fn kept_outside_section(ls: Seq<Seq<char>>) -> (bool, Seq<char>)
    decreases ls.len(),
{
    if ls.len() == 0 {
        (false, Seq::empty())
    } else {
        let prev = kept_outside_section(ls.drop_last());
        let line = ls.last();
        let inside = prev.0 || trim(line) == marker_start();
        let text = if !inside {
            prev.1 + line + seq!['\n']
        } else {
            prev.1
        };
        (if trim(line) == marker_end() {
            false
        } else {
            inside
        }, text)
    }
}

/// The profile text left when the section is removed: the marker lines and
/// the lines between them go, every other line stays.
pub open spec fn kept_without_section(ls: Seq<Seq<char>>) -> (bool, Seq<char>)
    decreases ls.len(),
{
    if ls.len() == 0 {
        (false, Seq::empty())
    } else {
        let prev = kept_without_section(ls.drop_last());
        let line = ls.last();
        if trim(line) == marker_start() {
            (true, prev.1)
        } else if trim(line) == marker_end() {
            (false, prev.1)
        } else if !prev.0 {
            (false, prev.1 + line + seq!['\n'])
        } else {
            (true, prev.1)
        }
    }
}

/// The lines of the section for `vars`, each ended by a newline.
pub open spec fn export_lines(e: Exporter, vars: Seq<(Seq<char>, Seq<char>)>) -> Seq<char>
    decreases vars.len(),
{
    if vars.len() == 0 {
        Seq::empty()
    } else {
        export_lines(e, vars.drop_last()) + e.export_line(vars.last().0, vars.last().1) + seq!['\n']
    }
}

/// The profile text written with the exports `vars`: the lines kept outside
/// the old section, then a fresh section with one export line per pair.
pub open spec fn written_profile(e: Exporter, existing: Seq<char>, vars: Seq<(Seq<char>, Seq<char>)>) -> Seq<char> {
    let kept = kept_outside_section(lines(existing)).1;
    let kept2 = if kept.len() > 0 && kept.last() != '\n' {
        kept + seq!['\n']
    } else {
        kept
    };
    kept2 + marker_start() + seq!['\n'] + export_lines(e, vars) + marker_end() + seq!['\n']
}

/// The view of a list of (name, value) pairs.
pub open spec fn pairs_view(vars: Seq<(String, String)>) -> Seq<(Seq<char>, Seq<char>)> {
    Seq::new(vars.len(), |i: int| (vars[i].0@, vars[i].1@))
}

/// Writes exports in one shell's syntax into one profile file.
pub struct Exporter {
    pub shell_name: String,
    pub export_file: String,
    pub export_format: String,
}

impl Exporter {
    /// An exporter for `shell_name` writing to `export_file` with the line
    /// template `export_format`.
    pub fn new(shell_name: String, export_file: String, export_format: String) -> (e: Self)
        ensures
            e.shell_name@ == shell_name@,
            e.export_file@ == export_file@,
            e.export_format@ == export_format@,
    {
        Exporter { shell_name, export_file, export_format }
    }

    /// The template with `{VAR}` replaced by `var`, then `{VALUE}` by `value`.
    pub open spec fn export_line(self, var: Seq<char>, value: Seq<char>) -> Seq<char> {
        replace_all(replace_all(self.export_format@, "{VAR}"@, var), "{VALUE}"@, value)
    }

    /// The export line for `var` set to `value`.
    pub fn generate_export(&self, var: &str, value: &str) -> (s: String)
        ensures
            s@ == self.export_line(var@, value@),
    {
        proof {
            reveal_strlit("{VAR}");
            reveal_strlit("{VALUE}");
        }
        let a = str_replace(self.export_format.as_str(), "{VAR}", var);
        str_replace(a.as_str(), "{VALUE}", value)
    }

    /// The new profile text: `existing` without its old section, then a
    /// fresh section holding one export line per pair of `vars`.
    pub fn with_exports(&self, existing: &str, vars: &Vec<(String, String)>) -> (s: String)
        ensures
            s@ == written_profile(*self, existing@, pairs_view(vars@)),
    {
        let ls = str_lines(existing);
        let ghost lv = lines(existing@);
        let mut out = String::new();
        let mut inside = false;
        let mut i: usize = 0;
        assert(lv.take(0) =~= Seq::<Seq<char>>::empty());
        while i < ls.len()
            invariant
                i <= ls@.len(),
                crate::text::string_views(ls@) == lv,
                kept_outside_section(lv.take(i as int)) == (inside, out@),
            decreases ls@.len() - i,
        {
            let line = ls[i].as_str();
            let t = str_trim(line);
            proof {
                assert(lv.take(i + 1).drop_last() =~= lv.take(i as int));
                assert(lv.take(i + 1).last() == line@);
            }
            if str_eq(t.as_str(), marker_start_exec()) {
                inside = true;
            }
            if !inside {
                out = join2(out.as_str(), line);
                out = join2(out.as_str(), "\n");
                proof {
                    reveal_strlit("\n");
                }
            }
            if str_eq(t.as_str(), marker_end_exec()) {
                inside = false;
            }
            i += 1;
        }
        assert(lv.take(i as int) =~= lv);
        let ov = chars_of(out.as_str());
        if ov.len() > 0 && ov[ov.len() - 1] != '\n' {
            out = join2(out.as_str(), "\n");
            proof {
                reveal_strlit("\n");
            }
        }
        out = join2(out.as_str(), marker_start_exec());
        out = join2(out.as_str(), "\n");
        let ghost head = out@;
        let mut k: usize = 0;
        assert(pairs_view(vars@).take(0) =~= Seq::<(Seq<char>, Seq<char>)>::empty());
        while k < vars.len()
            invariant
                k <= vars@.len(),
                out@ == head + export_lines(*self, pairs_view(vars@).take(k as int)),
            decreases vars@.len() - k,
        {
            let line = self.generate_export(vars[k].0.as_str(), vars[k].1.as_str());
            out = join2(out.as_str(), line.as_str());
            out = join2(out.as_str(), "\n");
            proof {
                reveal_strlit("\n");
                let pv = pairs_view(vars@);
                assert(pv.take(k + 1).drop_last() =~= pv.take(k as int));
                assert(pv.take(k + 1).last() == (vars@[k as int].0@, vars@[k as int].1@));
            }
            k += 1;
        }
        assert(pairs_view(vars@).take(k as int) =~= pairs_view(vars@));
        out = join2(out.as_str(), marker_end_exec());
        out = join2(out.as_str(), "\n");
        proof {
            reveal_strlit("\n");
        }
        out
    }

    /// The profile text with the section removed.
    pub fn without_exports(&self, existing: &str) -> (s: String)
        ensures
            s@ == kept_without_section(lines(existing@)).1,
    {
        let ls = str_lines(existing);
        let ghost lv = lines(existing@);
        let mut out = String::new();
        let mut inside = false;
        let mut i: usize = 0;
        assert(lv.take(0) =~= Seq::<Seq<char>>::empty());
        while i < ls.len()
            invariant
                i <= ls@.len(),
                crate::text::string_views(ls@) == lv,
                kept_without_section(lv.take(i as int)) == (inside, out@),
            decreases ls@.len() - i,
        {
            let line = ls[i].as_str();
            let t = str_trim(line);
            proof {
                assert(lv.take(i + 1).drop_last() =~= lv.take(i as int));
                assert(lv.take(i + 1).last() == line@);
                reveal_strlit("\n");
            }
            if str_eq(t.as_str(), marker_start_exec()) {
                inside = true;
            } else if str_eq(t.as_str(), marker_end_exec()) {
                inside = false;
            } else if !inside {
                out = join2(out.as_str(), line);
                out = join2(out.as_str(), "\n");
            }
            i += 1;
        }
        assert(lv.take(i as int) =~= lv);
        out
    }

    /// Whether `content` holds both markers of the section.
    pub fn has_exports(&self, content: &str) -> (b: bool)
        ensures
            b == (contains_seq(content@, marker_start()) && contains_seq(content@, marker_end())),
    {
        str_contains(content, marker_start_exec()) && str_contains(content, marker_end_exec())
    }

    /// What adding exports writes, given the profile file's text when it
    /// exists: the new profile (from an empty one when there is no file), and
    /// for an existing file a backup of its old text beside it.
    pub fn add_exports_plan(&self, existing: Option<String>, vars: &Vec<(String, String)>) -> (r: (
        String,
        Option<(String, String)>,
    ))
        ensures
            r.0@ == written_profile(
                *self,
                match existing {
                    Some(t) => t@,
                    None => Seq::empty(),
                },
                pairs_view(vars@),
            ),
            match existing {
                Some(t) => r.1 matches Some(b) && b.0@ == self.export_file@ + ".granite-cli-backup"@ && b.1@ == t@,
                None => r.1 is None,
            },
    {
        match existing {
            Some(t) => {
                let content = self.with_exports(t.as_str(), vars);
                let path = join2(self.export_file.as_str(), ".granite-cli-backup");
                (content, Some((path, t)))
            },
            None => {
                let empty = String::new();
                proof {
                    assert(empty@ =~= Seq::<char>::empty());
                }
                (self.with_exports(empty.as_str(), vars), None)
            },
        }
    }

    /// What removing exports writes, given the profile file's text when it
    /// exists: nothing when there is no file; otherwise the profile without
    /// the section.
    pub fn remove_exports_plan(&self, existing: Option<String>) -> (r: Option<String>)
        ensures
            match existing {
                Some(t) => r matches Some(c) && c@ == kept_without_section(lines(t@)).1,
                None => r is None,
            },
    {
        match existing {
            Some(t) => Some(self.without_exports(t.as_str())),
            None => None,
        }
    }
}

/// The shell's name and the profile file to export to; see `detect_shell`.
pub fn detect_shell_profile(search: &ProfileSearch, existing: &Vec<String>) -> (r: (String, String))
    ensures
        r.0@ == crate::config::shell::shell_name(search.shell_env@),
        r.1@ == crate::config::shell::chosen_profile(search, crate::text::string_views(existing@)),
{
    let (name, path, _) = detect_shell(search, existing);
    (name, path)
}

/// `value` with all but its first and last four characters hidden; fully
/// hidden when it has eight characters or fewer.
pub open spec fn masked(value: Seq<char>) -> Seq<char> {
    if value.len() > 8 {
        value.take(4) + "****"@ + value.skip(value.len() - 4)
    } else {
        "****"@
    }
}

fn mask(value: &str) -> (r: String)
    ensures
        r@ == masked(value@),
{
    let v = chars_of(value);
    let n = v.len();
    if n > 8 {
        let a = string_of_range(&v, 0, 4);
        let b = join2(a.as_str(), "****");
        let c = string_of_range(&v, n - 4, n);
        let r = join2(b.as_str(), c.as_str());
        assert(v@.subrange(0, 4) =~= value@.take(4));
        assert(v@.subrange(n - 4, n as int) =~= value@.skip(n - 4));
        r
    } else {
        "****".to_string()
    }
}

/// The message shown before the export lines.
pub open spec fn instructions_header(export_file: Seq<char>) -> Seq<char> {
    "\nTo persist these settings, you can export them to your shell profile:\n  Granite CLI will add the following to "@
        + export_file + ":\n"@
}

/// The line shown for `var`, its value masked.
pub open spec fn instruction_line(var: Seq<char>, value: Seq<char>) -> Seq<char> {
    "  export "@ + var + "=\""@ + masked(value) + "\""@
}

/// The message shown after the export lines.
pub open spec fn instructions_footer() -> Seq<char> {
    "\nRun: granite-cli configure --export to write these to your shell profile."@
}

/// The messages that tell the user how to persist `vars`: a header naming
/// `export_file`, one masked line per pair, and how to write them.
pub fn print_export_instructions(vars: &Vec<(String, String)>, shell_name: &str, export_file: &str) -> (msgs: Vec<String>)
    ensures
        msgs@.len() == vars@.len() + 2,
        msgs@[0]@ == instructions_header(export_file@),
        forall|i: int|
            0 <= i < vars@.len() ==> #[trigger] msgs@[i + 1]@ == instruction_line(vars@[i].0@, vars@[i].1@),
        msgs@[vars@.len() as int + 1]@ == instructions_footer(),
{
    let mut msgs: Vec<String> = Vec::new();
    let a = join2(
        "\nTo persist these settings, you can export them to your shell profile:\n  Granite CLI will add the following to ",
        export_file,
    );
    msgs.push(join2(a.as_str(), ":\n"));
    let mut i: usize = 0;
    while i < vars.len()
        invariant
            i <= vars@.len(),
            msgs@.len() == i + 1,
            msgs@[0]@ == instructions_header(export_file@),
            forall|j: int| 0 <= j < i ==> #[trigger] msgs@[j + 1]@ == instruction_line(vars@[j].0@, vars@[j].1@),
        decreases vars@.len() - i,
    {
        let b = join2("  export ", vars[i].0.as_str());
        let c = join2(b.as_str(), "=\"");
        let d = join2(c.as_str(), mask(vars[i].1.as_str()).as_str());
        let e = join2(d.as_str(), "\"");
        msgs.push(e);
        i += 1;
    }
    msgs.push("\nRun: granite-cli configure --export to write these to your shell profile.".to_string());
    msgs
}

/*-- what rewriting and removing the section keep ----------------------------------*/

/// The lines kept when the section is rewritten, and whether the scan ended
/// inside the section (see `kept_outside_section`).
pub open spec fn outside_lines(ls: Seq<Seq<char>>) -> (bool, Seq<Seq<char>>)
    decreases ls.len(),
{
    if ls.len() == 0 {
        (false, Seq::empty())
    } else {
        let prev = outside_lines(ls.drop_last());
        let line = ls.last();
        let inside = prev.0 || trim(line) == marker_start();
        let kept = if !inside {
            prev.1.push(line)
        } else {
            prev.1
        };
        (if trim(line) == marker_end() {
            false
        } else {
            inside
        }, kept)
    }
}

/// The lines left when the section is removed, and whether the scan ended
/// inside the section (see `kept_without_section`).
pub open spec fn without_lines(ls: Seq<Seq<char>>) -> (bool, Seq<Seq<char>>)
    decreases ls.len(),
{
    if ls.len() == 0 {
        (false, Seq::empty())
    } else {
        let prev = without_lines(ls.drop_last());
        let line = ls.last();
        if trim(line) == marker_start() {
            (true, prev.1)
        } else if trim(line) == marker_end() {
            (false, prev.1)
        } else if !prev.0 {
            (false, prev.1.push(line))
        } else {
            (true, prev.1)
        }
    }
}

proof fn lemma_kept_outside(ls: Seq<Seq<char>>)
    ensures
        kept_outside_section(ls) == (outside_lines(ls).0, unlines(outside_lines(ls).1)),
    decreases ls.len(),
{
    if ls.len() > 0 {
        lemma_kept_outside(ls.drop_last());
        let prev = outside_lines(ls.drop_last());
        assert(unlines(prev.1.push(ls.last())) =~= unlines(prev.1) + ls.last() + seq!['\n']) by {
            assert(prev.1.push(ls.last()).drop_last() =~= prev.1);
        }
    }
}

proof fn lemma_kept_without(ls: Seq<Seq<char>>)
    ensures
        kept_without_section(ls) == (without_lines(ls).0, unlines(without_lines(ls).1)),
    decreases ls.len(),
{
    if ls.len() > 0 {
        lemma_kept_without(ls.drop_last());
        let prev = without_lines(ls.drop_last());
        assert(unlines(prev.1.push(ls.last())) =~= unlines(prev.1) + ls.last() + seq!['\n']) by {
            assert(prev.1.push(ls.last()).drop_last() =~= prev.1);
        }
    }
}

proof fn lemma_export_lines(e: Exporter, vars: Seq<(Seq<char>, Seq<char>)>)
    ensures
        export_lines(e, vars) == unlines(Seq::new(vars.len(), |i: int| e.export_line(vars[i].0, vars[i].1))),
    decreases vars.len(),
{
    if vars.len() > 0 {
        lemma_export_lines(e, vars.drop_last());
        let f = Seq::new(vars.len(), |i: int| e.export_line(vars[i].0, vars[i].1));
        let g = Seq::new(vars.drop_last().len(), |i: int| e.export_line(vars.drop_last()[i].0, vars.drop_last()[i].1));
        assert(f.drop_last() =~= g);
    }
}

proof fn lemma_markers_trimmed()
    ensures
        trim(marker_start()) == marker_start(),
        trim(marker_end()) == marker_end(),
        marker_start() != marker_end(),
        plain_line(marker_start()),
        plain_line(marker_end()),
{
    reveal_strlit("# === granite-cli exports start ===");
    reveal_strlit("# === granite-cli exports end ===");
    let a = marker_start();
    let b = marker_end();
    assert(crate::text::trim_start(a) == a);
    assert(crate::text::trim_end(a) == a);
    assert(crate::text::trim_start(b) == b);
    assert(crate::text::trim_end(b) == b);
    assert(a.len() != b.len());
    assert(!a.contains('\n')) by {
        if a.contains('\n') {
            let k = choose|k: int| 0 <= k < a.len() && a[k] == '\n';
            assert(a[k] != '\n');
        }
    }
    assert(!b.contains('\n')) by {
        if b.contains('\n') {
            let k = choose|k: int| 0 <= k < b.len() && b[k] == '\n';
            assert(b[k] != '\n');
        }
    }
}

/// The kept lines hold no opening marker, and removing the section from
/// them leaves what removing it from all the lines leaves.
proof fn lemma_outside_then_without(ls: Seq<Seq<char>>)
    ensures
        outside_lines(ls).0 == without_lines(ls).0,
        without_lines(outside_lines(ls).1) == (false, without_lines(ls).1),
        forall|i: int| 0 <= i < outside_lines(ls).1.len() ==> trim(#[trigger] outside_lines(ls).1[i]) != marker_start(),
    decreases ls.len(),
{
    lemma_markers_trimmed();
    if ls.len() > 0 {
        let init = ls.drop_last();
        let line = ls.last();
        lemma_outside_then_without(init);
        let k = outside_lines(init).1;
        let kept = !(outside_lines(init).0 || trim(line) == marker_start());
        if kept {
            assert(outside_lines(ls).1 == k.push(line));
            assert(k.push(line).drop_last() =~= k);
            assert(k.push(line).last() == line);
        }
        assert forall|i: int| 0 <= i < outside_lines(ls).1.len() implies trim(#[trigger] outside_lines(ls).1[i])
            != marker_start() by {
            if kept && i == k.len() {
                assert(outside_lines(ls).1[i] == line);
            } else {
                assert(outside_lines(ls).1[i] == k[i]);
            }
        }
    }
}

/// Lines without an opening marker pass a rewrite unchanged, and the scan
/// ends outside the section.
proof fn lemma_outside_plain(ls: Seq<Seq<char>>)
    requires
        forall|i: int| 0 <= i < ls.len() ==> trim(#[trigger] ls[i]) != marker_start(),
    ensures
        outside_lines(ls) == (false, ls),
    decreases ls.len(),
{
    if ls.len() > 0 {
        let init = ls.drop_last();
        assert forall|i: int| 0 <= i < init.len() implies trim(#[trigger] init[i]) != marker_start() by {
            assert(init[i] == ls[i]);
        }
        lemma_outside_plain(init);
        assert(trim(ls[ls.len() - 1]) != marker_start());
        assert(init.push(ls.last()) =~= ls);
    }
}

/// Export lines scanned inside the section are neither kept nor end it.
proof fn lemma_scan_body(k: Seq<Seq<char>>, opened: Seq<Seq<char>>, body: Seq<Seq<char>>, j: int)
    requires
        0 <= j <= body.len(),
        outside_lines(opened) == (true, outside_lines(k).1),
        without_lines(opened) == (true, without_lines(k).1),
        forall|i: int| 0 <= i < body.len() ==> trim(#[trigger] body[i]) != marker_end(),
    ensures
        outside_lines(opened + body.take(j)) == (true, outside_lines(k).1),
        without_lines(opened + body.take(j)) == (true, without_lines(k).1),
    decreases j,
{
    if j == 0 {
        assert(opened + body.take(0) =~= opened);
    } else {
        lemma_scan_body(k, opened, body, j - 1);
        let next = opened + body.take(j);
        assert(next.drop_last() =~= opened + body.take(j - 1));
        assert(next.last() == body[j - 1]);
        assert(trim(body[j - 1]) != marker_end());
    }
}

/// Removing the section after writing it leaves the profile as removing it
/// alone would: adding exports and removing them again loses nothing else.
/// The exports may hold any text, newlines included, so long as none of
/// their lines is the closing marker.
pub proof fn law_remove_after_add(e: Exporter, existing: Seq<char>, vars: Seq<(Seq<char>, Seq<char>)>)
    requires
        forall|i: int| 0 <= i < lines(existing).len() ==> #[trigger] plain_line(lines(existing)[i]),
        no_end_marker(export_lines(e, vars)),
    ensures
        kept_without_section(lines(written_profile(e, existing, vars))).1 == kept_without_section(lines(existing)).1,
{
    let ls = lines(existing);
    lemma_written_lines_any(e, existing, vars);
    let k = outside_lines(ls).1;
    let body = lines(export_lines(e, vars));
    lemma_outside_then_without(ls);
    lemma_outside_plain(k);
    lemma_scan_any_section(k, body);
    lemma_kept_without(k + seq![marker_start()] + body + seq![marker_end()]);
    lemma_kept_without(ls);
}

/// Lines without markers pass a removal unchanged, and the scan ends outside the section.
proof fn lemma_without_plain(ls: Seq<Seq<char>>)
    requires
        forall|i: int| 0 <= i < ls.len() ==> trim(#[trigger] ls[i]) != marker_start() && trim(ls[i]) != marker_end(),
    ensures
        without_lines(ls) == (false, ls),
    decreases ls.len(),
{
    if ls.len() > 0 {
        let init = ls.drop_last();
        assert forall|i: int| 0 <= i < init.len() implies trim(#[trigger] init[i]) != marker_start() && trim(init[i])
            != marker_end() by {
            assert(init[i] == ls[i]);
        }
        lemma_without_plain(init);
        assert(trim(ls[ls.len() - 1]) != marker_start());
        assert(init.push(ls.last()) =~= ls);
    }
}

/// Adding exports to a profile without markers, made of whole lines each
/// ended by a newline, and removing them again gives that profile back
/// (exports as in `law_remove_after_add`).
pub proof fn law_remove_restores_profile(e: Exporter, ls: Seq<Seq<char>>, vars: Seq<(Seq<char>, Seq<char>)>)
    requires
        forall|i: int| 0 <= i < ls.len() ==> #[trigger] plain_line(ls[i]) && trim(ls[i]) != marker_start() && trim(
            ls[i],
        ) != marker_end(),
        no_end_marker(export_lines(e, vars)),
    ensures
        kept_without_section(lines(written_profile(e, unlines(ls), vars))).1 == unlines(ls),
{
    lemma_lines_unlines(ls);
    assert forall|i: int| 0 <= i < lines(unlines(ls)).len() implies #[trigger] plain_line(lines(unlines(ls))[i]) by {
        assert(plain_line(ls[i]));
    }
    law_remove_after_add(e, unlines(ls), vars);
    lemma_kept_without(ls);
    assert forall|i: int| 0 <= i < ls.len() implies trim(#[trigger] ls[i]) != marker_start() && trim(ls[i]) != marker_end() by {
        assert(plain_line(ls[i]));
    }
    lemma_without_plain(ls);
}

/// No line of `text` closes the section.
pub open spec fn no_end_marker(text: Seq<char>) -> bool {
    forall|j: int| 0 <= j < lines(text).len() ==> trim(#[trigger] lines(text)[j]) != marker_end()
}

/// Scanning a section of any lines that do not close it, after lines
/// scanned outside it: rewriting keeps none of it, and removal ends where it started.
proof fn lemma_scan_any_section(k: Seq<Seq<char>>, body: Seq<Seq<char>>)
    requires
        outside_lines(k).0 == false,
        forall|i: int| 0 <= i < body.len() ==> trim(#[trigger] body[i]) != marker_end(),
    ensures
        outside_lines(k + seq![marker_start()] + body + seq![marker_end()]) == (false, outside_lines(k).1),
        without_lines(k + seq![marker_start()] + body + seq![marker_end()]) == (false, without_lines(k).1),
{
    lemma_markers_trimmed();
    let opened = k.push(marker_start());
    assert(opened.drop_last() =~= k);
    assert(outside_lines(opened) == (true, outside_lines(k).1));
    assert(without_lines(opened) == (true, without_lines(k).1));
    lemma_scan_body(k, opened, body, body.len() as int);
    assert(body.take(body.len() as int) =~= body);
    let whole = k + seq![marker_start()] + body + seq![marker_end()];
    assert(whole =~= (opened + body).push(marker_end()));
    assert(whole.drop_last() =~= opened + body);
}

/// The export lines are empty or end with a newline.
proof fn lemma_export_lines_end(e: Exporter, vars: Seq<(Seq<char>, Seq<char>)>)
    ensures
        export_lines(e, vars).len() == 0 || export_lines(e, vars).last() == '\n',
{
}

/// The written profile reads back as the kept lines, the opening marker, the
/// lines of the exports (whatever they hold) and the closing marker.
proof fn lemma_written_lines_any(e: Exporter, existing: Seq<char>, vars: Seq<(Seq<char>, Seq<char>)>)
    requires
        forall|i: int| 0 <= i < lines(existing).len() ==> #[trigger] plain_line(lines(existing)[i]),
    ensures
        lines(written_profile(e, existing, vars)) == outside_lines(lines(existing)).1 + seq![marker_start()] + lines(
            export_lines(e, vars),
        ) + seq![marker_end()],
{
    lemma_markers_trimmed();
    let ls = lines(existing);
    let k = outside_lines(ls).1;
    lemma_kept_outside(ls);
    lemma_unlines_ends(k);
    lemma_outside_kept_plain(ls);
    lemma_lines_unlines(k);
    let kept = unlines(k);
    let s1 = marker_start() + seq!['\n'];
    let s3 = marker_end() + seq!['\n'];
    let x = export_lines(e, vars);
    lemma_unlines_one(marker_start());
    lemma_unlines_one(marker_end());
    lemma_lines_unlines(seq![marker_start()]);
    lemma_lines_unlines(seq![marker_end()]);
    lemma_export_lines_end(e, vars);
    assert(written_profile(e, existing, vars) =~= kept + (s1 + (x + s3)));
    crate::text::lemma_lines_concat(x, s3);
    assert(s1.last() == '\n');
    crate::text::lemma_lines_concat(s1, x + s3);
    crate::text::lemma_lines_concat(kept, s1 + (x + s3));
    assert(lines(written_profile(e, existing, vars)) =~= k + seq![marker_start()] + lines(x) + seq![marker_end()]);
}

/// Writing the section again replaces it: exports written over a profile
/// that already has them give what writing them once gives. The exports
/// written first may hold any text, newlines included, so long as none of
/// their lines is the closing marker.
pub proof fn law_rewrite_replaces(
    e: Exporter,
    existing: Seq<char>,
    first: Seq<(Seq<char>, Seq<char>)>,
    second: Seq<(Seq<char>, Seq<char>)>,
)
    requires
        forall|i: int| 0 <= i < lines(existing).len() ==> #[trigger] plain_line(lines(existing)[i]),
        no_end_marker(export_lines(e, first)),
    ensures
        written_profile(e, written_profile(e, existing, first), second) == written_profile(e, existing, second),
{
    let ls = lines(existing);
    lemma_written_lines_any(e, existing, first);
    let k = outside_lines(ls).1;
    let body = lines(export_lines(e, first));
    lemma_outside_then_without(ls);
    lemma_outside_plain(k);
    lemma_scan_any_section(k, body);
    lemma_kept_outside(k + seq![marker_start()] + body + seq![marker_end()]);
    lemma_kept_outside(ls);
}

proof fn lemma_unlines_one(l: Seq<char>)
    ensures
        unlines(seq![l]) == l + seq!['\n'],
{
    let one = seq![l];
    assert(one.drop_last() =~= Seq::<Seq<char>>::empty());
    assert(one.last() == l);
    assert(unlines(Seq::<Seq<char>>::empty()) == Seq::<char>::empty());
    assert(Seq::<char>::empty() + l + seq!['\n'] =~= l + seq!['\n']);
}

/// The lines kept by a rewrite are lines of the input.
proof fn lemma_outside_kept_plain(ls: Seq<Seq<char>>)
    requires
        forall|i: int| 0 <= i < ls.len() ==> #[trigger] plain_line(ls[i]),
    ensures
        forall|i: int| 0 <= i < outside_lines(ls).1.len() ==> #[trigger] plain_line(outside_lines(ls).1[i]),
    decreases ls.len(),
{
    if ls.len() > 0 {
        let init = ls.drop_last();
        assert forall|i: int| 0 <= i < init.len() implies #[trigger] plain_line(init[i]) by {
            assert(init[i] == ls[i]);
        }
        lemma_outside_kept_plain(init);
        assert(plain_line(ls[ls.len() - 1]));
        let k = outside_lines(init).1;
        assert forall|i: int| 0 <= i < outside_lines(ls).1.len() implies #[trigger] plain_line(outside_lines(ls).1[i]) by {
            if i < k.len() {
                assert(outside_lines(ls).1[i] == k[i]);
            } else {
                assert(outside_lines(ls).1[i] == ls.last());
            }
        }
    }
}

} // verus!
