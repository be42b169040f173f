//! Which shell the user runs, the profile file exports go to, and the syntax
//! of an export line.
//!
//! The environment and the file system are read by the caller: it passes the
//! `SHELL`, `HOME` and `XDG_CONFIG_HOME` variables and, of the candidate
//! profiles that `profile_candidates` names, those that exist.
use vstd::prelude::*;

use crate::text::chars_of;
use crate::text::contains_string;
use crate::text::join2;
use crate::text::str_eq;
use crate::text::split_on;
use crate::text::str_split_on;
use crate::text::string_views;

verus! {

/// A detected shell: its name, the profile exports go to, and the line
/// template an export is written with.
pub struct ShellInfo {
    pub name: String,
    pub export_file: String,
    pub export_format: String,
}

broadcast use crate::text::group_views;

/// What detecting the shell reads from the environment.
pub struct ProfileSearch {
    /// `$SHELL`, if set.
    pub shell_env: Option<String>,
    /// `$HOME`, if set.
    pub home: Option<String>,
    /// `$XDG_CONFIG_HOME`, if set.
    pub xdg_config_home: Option<String>,
}

/// The non-empty pieces of `pieces` other than `"."`, in order.
pub open spec fn kept_components(pieces: Seq<Seq<char>>) -> Seq<Seq<char>>
    decreases pieces.len(),
{
    if pieces.len() == 0 {
        Seq::empty()
    } else {
        let rest = kept_components(pieces.drop_last());
        let last = pieces.last();
        if last.len() == 0 || last == "."@ {
            rest
        } else {
            rest.push(last)
        }
    }
}

/// The path components of `p`: its pieces between `'/'`, without empty ones
/// and without `"."`.
pub open spec fn components(p: Seq<char>) -> Seq<Seq<char>> {
    kept_components(split_on(p, '/'))
}

/// The name of the shell at path `shell` (std's `Path::file_name`): its last
/// component, unless there is none or it is `".."`, which gives `"unknown"`.
pub open spec fn file_name_or_unknown(shell: Seq<char>) -> Seq<char> {
    let c = components(shell);
    if c.len() == 0 || c.last() == ".."@ {
        "unknown"@
    } else {
        c.last()
    }
}

/// The file name of `$SHELL`, or of `/bin/sh` when it is not set.
pub open spec fn shell_file_name(shell_env: Option<String>) -> Seq<char> {
    match shell_env {
        Some(s) => file_name_or_unknown(s@),
        None => "sh"@,
    }
}

/// The shell's name: `bash`, `zsh` or `fish` when `$SHELL` (or `/bin/sh`
/// when it is not set) names one of them, `unknown` for any other shell.
pub open spec fn shell_name(shell_env: Option<String>) -> Seq<char> {
    let f = shell_file_name(shell_env);
    if f == "bash"@ || f == "zsh"@ || f == "fish"@ {
        f
    } else {
        "unknown"@
    }
}

/// The export-line template of the shell `name`.
pub open spec fn export_format(name: Seq<char>) -> Seq<char> {
    if name == "fish"@ {
        "set -gx {VAR} \"{VALUE}\""@
    } else {
        "export {VAR}=\"{VALUE}\""@
    }
}

/// `a` joined with the relative path `b` (std's `Path::join`).
pub open spec fn path_join(a: Seq<char>, b: Seq<char>) -> Seq<char> {
    if a.len() == 0 {
        b
    } else if a.last() == '/' {
        a + b
    } else {
        a + "/"@ + b
    }
}

/// The profiles to look for, in order of preference, and the one used when
/// none of them exists.
pub open spec fn candidates_and_fallback(name: Seq<char>, search: ProfileSearch) -> (Seq<Seq<char>>, Seq<char>) {
    if name == "bash"@ {
        match search.home {
            Some(h) => (
                seq![path_join(h@, ".bash_profile"@), path_join(h@, ".bashrc"@), path_join(h@, ".profile"@)],
                path_join(h@, ".bash_profile"@),
            ),
            None => (Seq::empty(), "/etc/bash_profile"@),
        }
    } else if name == "zsh"@ {
        match search.home {
            Some(h) => (
                seq![path_join(h@, ".zprofile"@), path_join(h@, ".zshrc"@), path_join(h@, ".profile"@)],
                path_join(h@, ".zshrc"@),
            ),
            None => (Seq::empty(), "/etc/zshrc"@),
        }
    } else if name == "fish"@ {
        let from_config_home: Seq<Seq<char>> = match search.xdg_config_home {
            Some(x) => seq![path_join(path_join(x@, "fish"@), "config.fish"@)],
            None => match search.home {
                Some(h) => seq![path_join(path_join(path_join(h@, ".config"@), "fish"@), "config.fish"@)],
                None => Seq::empty(),
            },
        };
        match search.home {
            Some(h) => (
                from_config_home + seq![path_join(path_join(h@, ".config/fish"@), "config.fish"@)],
                path_join(h@, ".config/fish/config.fish"@),
            ),
            None => (from_config_home, "/etc/fish/config.fish"@),
        }
    } else {
        (Seq::empty(), "/etc/shell_exports"@)
    }
}

/// Bash with a home directory looks for `~/.bash_profile`, then `~/.bashrc`,
/// then `~/.profile`, and uses `~/.bash_profile` when none exists: the first
/// of them that exists is chosen, so an existing `~/.bashrc` is used whenever
/// there is no `~/.bash_profile`.
pub proof fn law_bash_profile_order(search: ProfileSearch, existing: Seq<Seq<char>>)
    requires
        shell_name(search.shell_env) == "bash"@,
        search.home is Some,
    ensures
        ({
            let h = search.home->Some_0@;
            let bp = path_join(h, ".bash_profile"@);
            let rc = path_join(h, ".bashrc"@);
            let pr = path_join(h, ".profile"@);
            &&& candidates_and_fallback("bash"@, search).0 == seq![bp, rc, pr]
            &&& existing.contains(bp) ==> chosen_profile(&search, existing) == bp
            &&& !existing.contains(bp) && existing.contains(rc) ==> chosen_profile(&search, existing) == rc
            &&& !existing.contains(bp) && !existing.contains(rc) && existing.contains(pr) ==> chosen_profile(
                &search,
                existing,
            ) == pr
            &&& !existing.contains(bp) && !existing.contains(rc) && !existing.contains(pr) ==> chosen_profile(
                &search,
                existing,
            ) == bp
        }),
{
    let h = search.home->Some_0@;
    let c = seq![path_join(h, ".bash_profile"@), path_join(h, ".bashrc"@), path_join(h, ".profile"@)];
    let f = path_join(h, ".bash_profile"@);
    assert(candidates_and_fallback("bash"@, search) == (c, f));
    let c1 = c.drop_first();
    let c2 = c1.drop_first();
    let c3 = c2.drop_first();
    assert(c1 =~= seq![path_join(h, ".bashrc"@), path_join(h, ".profile"@)]);
    assert(c2 =~= seq![path_join(h, ".profile"@)]);
    assert(c3 =~= Seq::<Seq<char>>::empty());
    assert(first_existing(c3, f, existing) == f);
    assert(first_existing(c2, f, existing) == if existing.contains(c2[0]) { c2[0] } else { f });
    assert(first_existing(c1, f, existing) == if existing.contains(c1[0]) { c1[0] } else { first_existing(c2, f, existing) });
    assert(first_existing(c, f, existing) == if existing.contains(c[0]) { c[0] } else { first_existing(c1, f, existing) });
    assert(chosen_profile(&search, existing) == first_existing(c, f, existing));
}

/// Zsh with a home directory looks for `~/.zprofile`, then `~/.zshrc`, then
/// `~/.profile`, and uses `~/.zshrc` when none exists.
pub proof fn law_zsh_profile_order(search: ProfileSearch, existing: Seq<Seq<char>>)
    requires
        shell_name(search.shell_env) == "zsh"@,
        search.home is Some,
    ensures
        ({
            let h = search.home->Some_0@;
            let zp = path_join(h, ".zprofile"@);
            let rc = path_join(h, ".zshrc"@);
            let pr = path_join(h, ".profile"@);
            &&& candidates_and_fallback("zsh"@, search).0 == seq![zp, rc, pr]
            &&& existing.contains(zp) ==> chosen_profile(&search, existing) == zp
            &&& !existing.contains(zp) && existing.contains(rc) ==> chosen_profile(&search, existing) == rc
            &&& !existing.contains(zp) && !existing.contains(rc) && existing.contains(pr) ==> chosen_profile(
                &search,
                existing,
            ) == pr
            &&& !existing.contains(zp) && !existing.contains(rc) && !existing.contains(pr) ==> chosen_profile(
                &search,
                existing,
            ) == rc
        }),
{
    let h = search.home->Some_0@;
    reveal_strlit("zsh");
    reveal_strlit("bash");
    let c = seq![path_join(h, ".zprofile"@), path_join(h, ".zshrc"@), path_join(h, ".profile"@)];
    let f = path_join(h, ".zshrc"@);
    assert("zsh"@.len() == 3);
    assert("bash"@.len() == 4);
    assert("zsh"@ != "bash"@);
    assert(candidates_and_fallback("zsh"@, search).0 =~= c);
    assert(candidates_and_fallback("zsh"@, search).1 == f);
    let c1 = c.drop_first();
    let c2 = c1.drop_first();
    let c3 = c2.drop_first();
    assert(c1 =~= seq![path_join(h, ".zshrc"@), path_join(h, ".profile"@)]);
    assert(c2 =~= seq![path_join(h, ".profile"@)]);
    assert(c3 =~= Seq::<Seq<char>>::empty());
    assert(first_existing(c3, f, existing) == f);
    assert(first_existing(c2, f, existing) == if existing.contains(c2[0]) { c2[0] } else { f });
    assert(first_existing(c1, f, existing) == if existing.contains(c1[0]) { c1[0] } else { first_existing(c2, f, existing) });
    assert(first_existing(c, f, existing) == if existing.contains(c[0]) { c[0] } else { first_existing(c1, f, existing) });
    assert(chosen_profile(&search, existing) == first_existing(c, f, existing));
}

/// The first candidate among `existing`, or the fallback.
pub open spec fn first_existing(cands: Seq<Seq<char>>, fallback: Seq<char>, existing: Seq<Seq<char>>) -> Seq<char>
    decreases cands.len(),
{
    if cands.len() == 0 {
        fallback
    } else if existing.contains(cands[0]) {
        cands[0]
    } else {
        first_existing(cands.drop_first(), fallback, existing)
    }
}

/// The profile chosen for the shell of `search`, given which candidates exist.
pub open spec fn chosen_profile(search: &ProfileSearch, existing: Seq<Seq<char>>) -> Seq<char> {
    let c = candidates_and_fallback(shell_name(search.shell_env), *search);
    first_existing(c.0, c.1, existing)
}

fn path_join_exec(a: &str, b: &str) -> (r: String)
    ensures
        r@ == path_join(a@, b@),
{
    let av = chars_of(a);
    if av.len() == 0 {
        b.to_string()
    } else if av[av.len() - 1] == '/' {
        join2(a, b)
    } else {
        let t = join2(a, "/");
        join2(t.as_str(), b)
    }
}

/// The last component of `p`, if any.
fn last_component(p: &str) -> (r: Option<String>)
    ensures
        match r {
            Some(s) => components(p@).len() > 0 && s@ == components(p@).last(),
            None => components(p@).len() == 0,
        },
{
    let pieces = str_split_on(p, '/');
    let ghost pv = string_views(pieces@);
    let mut last: Option<String> = None;
    let mut i: usize = 0;
    assert(pv.take(0) =~= Seq::<Seq<char>>::empty());
    while i < pieces.len()
        invariant
            i <= pieces@.len(),
            pv == string_views(pieces@),
            match last {
                Some(s) => kept_components(pv.take(i as int)).len() > 0 && s@ == kept_components(
                    pv.take(i as int),
                ).last(),
                None => kept_components(pv.take(i as int)).len() == 0,
            },
        decreases pieces@.len() - i,
    {
        proof {
            assert(pv.take(i + 1).drop_last() =~= pv.take(i as int));
            assert(pv.take(i + 1).last() == pieces@[i as int]@);
            reveal_strlit(".");
        }
        let piece = pieces[i].as_str();
        if chars_of(piece).len() > 0 && !str_eq(piece, ".") {
            last = Some(crate::text::owned(piece));
        }
        i += 1;
    }
    assert(pv.take(i as int) =~= pv);
    last
}

/// The shell's name: `bash`, `zsh`, `fish` or `unknown`.
pub fn shell_name_exec(shell_env: &Option<String>) -> (r: String)
    ensures
        r@ == shell_name(*shell_env),
{
    let f = shell_file_name_exec(shell_env);
    proof {
        reveal_strlit("bash");
        reveal_strlit("zsh");
        reveal_strlit("fish");
    }
    if str_eq(f.as_str(), "bash") || str_eq(f.as_str(), "zsh") || str_eq(f.as_str(), "fish") {
        f
    } else {
        "unknown".to_string()
    }
}

fn shell_file_name_exec(shell_env: &Option<String>) -> (r: String)
    ensures
        r@ == shell_file_name(*shell_env),
{
    match shell_env {
        Some(s) => {
            match last_component(s.as_str()) {
                Some(c) => {
                    if str_eq(c.as_str(), "..") {
                        proof {
                            reveal_strlit("..");
                        }
                        "unknown".to_string()
                    } else {
                        proof {
                            reveal_strlit("..");
                        }
                        c
                    }
                },
                None => "unknown".to_string(),
            }
        },
        None => "sh".to_string(),
    }
}

/// The profiles to look for when detecting the shell of `search`, in order
/// of preference. The caller tells `detect_shell` which of them exist.
pub fn profile_candidates(search: &ProfileSearch) -> (r: Vec<String>)
    ensures
        string_views(r@) == candidates_and_fallback(shell_name(search.shell_env), *search).0,
{
    let name = shell_name_exec(&search.shell_env);
    candidates_exec(name.as_str(), search).0
}

fn candidates_exec(name: &str, search: &ProfileSearch) -> (r: (Vec<String>, String))
    ensures
        string_views(r.0@) == candidates_and_fallback(name@, *search).0,
        r.1@ == candidates_and_fallback(name@, *search).1,
{
    proof {
        reveal_strlit("bash");
        reveal_strlit("zsh");
        reveal_strlit("fish");
    }
    if str_eq(name, "bash") {
        match &search.home {
            Some(h) => {
                let v = vec![
                    path_join_exec(h.as_str(), ".bash_profile"),
                    path_join_exec(h.as_str(), ".bashrc"),
                    path_join_exec(h.as_str(), ".profile"),
                ];
                let f = path_join_exec(h.as_str(), ".bash_profile");
                assert(string_views(v@) =~= candidates_and_fallback(name@, *search).0);
                (v, f)
            },
            None => {
                let v: Vec<String> = Vec::new();
                assert(string_views(v@) =~= Seq::<Seq<char>>::empty());
                (v, "/etc/bash_profile".to_string())
            },
        }
    } else if str_eq(name, "zsh") {
        match &search.home {
            Some(h) => {
                let v = vec![
                    path_join_exec(h.as_str(), ".zprofile"),
                    path_join_exec(h.as_str(), ".zshrc"),
                    path_join_exec(h.as_str(), ".profile"),
                ];
                let f = path_join_exec(h.as_str(), ".zshrc");
                assert(string_views(v@) =~= candidates_and_fallback(name@, *search).0);
                (v, f)
            },
            None => {
                let v: Vec<String> = Vec::new();
                assert(string_views(v@) =~= Seq::<Seq<char>>::empty());
                (v, "/etc/zshrc".to_string())
            },
        }
    } else if str_eq(name, "fish") {
        let mut v: Vec<String> = Vec::new();
        match &search.xdg_config_home {
            Some(x) => {
                let a = path_join_exec(x.as_str(), "fish");
                v.push(path_join_exec(a.as_str(), "config.fish"));
            },
            None => match &search.home {
                Some(h) => {
                    let a = path_join_exec(h.as_str(), ".config");
                    let b = path_join_exec(a.as_str(), "fish");
                    v.push(path_join_exec(b.as_str(), "config.fish"));
                },
                None => {},
            },
        }
        let ghost first = string_views(v@);
        match &search.home {
            Some(h) => {
                let a = path_join_exec(h.as_str(), ".config/fish");
                v.push(path_join_exec(a.as_str(), "config.fish"));
                let f = path_join_exec(h.as_str(), ".config/fish/config.fish");
                assert(string_views(v@) =~= candidates_and_fallback(name@, *search).0);
                (v, f)
            },
            None => {
                assert(string_views(v@) =~= candidates_and_fallback(name@, *search).0);
                (v, "/etc/fish/config.fish".to_string())
            },
        }
    } else {
        let v: Vec<String> = Vec::new();
        assert(string_views(v@) =~= Seq::<Seq<char>>::empty());
        (v, "/etc/shell_exports".to_string())
    }
}

fn first_existing_exec(cands: &Vec<String>, fallback: String, existing: &Vec<String>) -> (r: String)
    ensures
        r@ == first_existing(string_views(cands@), fallback@, string_views(existing@)),
{
    let ghost ex = string_views(existing@);
    let ghost cv = string_views(cands@);
    let mut i: usize = 0;
    assert(cv.skip(0) =~= cv);
    while i < cands.len()
        invariant
            i <= cands@.len(),
            cv == string_views(cands@),
            ex == string_views(existing@),
            first_existing(cv, fallback@, ex) == first_existing(cv.skip(i as int), fallback@, ex),
        decreases cands@.len() - i,
    {
        let ghost rest = cv.skip(i as int);
        assert(rest[0] == cands@[i as int]@);
        assert(rest.drop_first() =~= cv.skip(i + 1));
        if contains_string(existing, cands[i].as_str()) {
            return crate::text::owned(cands[i].as_str());
        }
        i += 1;
    }
    assert(cv.skip(i as int) =~= Seq::<Seq<char>>::empty());
    fallback
}

/// The shell's name, the profile to export to (the first candidate that is
/// among `existing`, or the fallback) and the template of an export line.
pub fn detect_shell(search: &ProfileSearch, existing: &Vec<String>) -> (r: (String, String, String))
    ensures
        r.0@ == shell_name(search.shell_env),
        r.1@ == chosen_profile(search, string_views(existing@)),
        r.2@ == export_format(shell_name(search.shell_env)),
{
    let name = shell_name_exec(&search.shell_env);
    let (cands, fallback) = candidates_exec(name.as_str(), search);
    let profile = first_existing_exec(&cands, fallback, existing);
    proof {
        reveal_strlit("fish");
    }
    let format = if str_eq(name.as_str(), "fish") {
        "set -gx {VAR} \"{VALUE}\"".to_string()
    } else {
        "export {VAR}=\"{VALUE}\"".to_string()
    };
    (name, profile, format)
}

} // verus!
