//! Where the configuration lives: the home directory, the top-level file,
//! one directory per section and one YAML file per configured item.
//!
//! Reading the environment and the file system is left to the caller; the
//! functions here decide from what it found.
use vstd::prelude::*;

use crate::config::shell::path_join;
use crate::text::chars_of;
use crate::text::join2;
use crate::text::string_of_range;

verus! {

/// `b` appended to the path `a` as `PathBuf::join` does: an absolute `b`
/// replaces `a`; otherwise `b` comes after `a`, with one `/` between.
pub open spec fn join_path(a: Seq<char>, b: Seq<char>) -> Seq<char> {
    if b.len() > 0 && b[0] == '/' {
        b
    } else {
        path_join(a, b)
    }
}

/// `b` appended to the path `a`.
pub fn join_path_exec(a: &str, b: &str) -> (r: String)
    ensures
        r@ == join_path(a@, b@),
{
    let bv = chars_of(b);
    if bv.len() > 0 && bv[0] == '/' {
        return crate::text::owned(b);
    }
    let av = chars_of(a);
    if av.len() == 0 {
        crate::text::owned(b)
    } else if av[av.len() - 1] == '/' {
        join2(a, b)
    } else {
        let t = join2(a, "/");
        proof {
            reveal_strlit("/");
        }
        join2(t.as_str(), b)
    }
}

/// The configuration home: `GRANITE_CLI_HOME` when it is set and not empty
/// (refused unless it is a directory, or absent with an existing parent);
/// otherwise `granite-cli` under the system's configuration directory.
pub open spec fn home_choice(
    env_value: Option<Seq<char>>,
    exists: bool,
    is_dir: bool,
    parent_exists: bool,
    system_dir: Option<Seq<char>>,
) -> Result<Seq<char>, Seq<char>> {
    match env_value {
        Some(v) if v.len() > 0 => if (!exists && parent_exists) || (exists && is_dir) {
            Ok(v)
        } else {
            Err("Invalid GRANITE_CLI_HOME: '"@ + v + "' parent does not exist or is not a directory."@)
        },
        _ => match system_dir {
            Some(d) => Ok(join_path(d, "granite-cli"@)),
            None => Err("Could not determine system configuration directory"@),
        },
    }
}

/// The configuration home, from the value of `GRANITE_CLI_HOME` (if set),
/// whether that path exists, is a directory, and has an existing parent (or
/// none), and the system's configuration directory (if known).
pub fn config_home(
    env_value: Option<&str>,
    exists: bool,
    is_dir: bool,
    parent_exists: bool,
    system_dir: Option<&str>,
) -> (r: Result<String, String>)
    ensures
        match r {
            Ok(p) => home_choice(
                match env_value {
                    Some(v) => Some(v@),
                    None => None,
                },
                exists,
                is_dir,
                parent_exists,
                match system_dir {
                    Some(d) => Some(d@),
                    None => None,
                },
            ) == Ok::<Seq<char>, Seq<char>>(p@),
            Err(e) => home_choice(
                match env_value {
                    Some(v) => Some(v@),
                    None => None,
                },
                exists,
                is_dir,
                parent_exists,
                match system_dir {
                    Some(d) => Some(d@),
                    None => None,
                },
            ) == Err::<Seq<char>, Seq<char>>(e@),
        },
{
    match env_value {
        Some(v) => {
            if !v.is_empty() {
                if (!exists && parent_exists) || (exists && is_dir) {
                    return Ok(crate::text::owned(v));
                } else {
                    let a = join2("Invalid GRANITE_CLI_HOME: '", v);
                    return Err(join2(a.as_str(), "' parent does not exist or is not a directory."));
                }
            }
        },
        None => {},
    }
    match system_dir {
        Some(d) => {
            proof {
                reveal_strlit("granite-cli");
            }
            Ok(join_path_exec(d, "granite-cli"))
        },
        None => Err("Could not determine system configuration directory".to_string()),
    }
}

/// The top-level configuration file of the home `home`.
pub fn config_file(home: &str) -> (r: String)
    ensures
        r@ == join_path(home@, "config.yaml"@),
{
    join_path_exec(home, "config.yaml")
}

/// The directory of a section (`models`, `providers`, ...) of the home `home`.
pub fn section_dir(home: &str, section: &str) -> (r: String)
    ensures
        r@ == join_path(home@, section@),
{
    join_path_exec(home, section)
}

/// The file that holds item `id` of a section directory.
pub fn item_file(dir: &str, id: &str) -> (r: String)
    ensures
        r@ == join_path(dir@, id@ + ".yaml"@),
{
    let name = join2(id, ".yaml");
    join_path_exec(dir, name.as_str())
}

/// Index of the last `.` of `s`, if any.
pub open spec fn last_dot(s: Seq<char>) -> Option<int> {
    if exists|i: int| 0 <= i < s.len() && s[i] == '.' {
        Some(choose|i: int| 0 <= i < s.len() && s[i] == '.' && forall|j: int| i < j < s.len() ==> s[j] != '.')
    } else {
        None
    }
}

/// The item id a file name in a section directory stands for: the name
/// before its extension when that is `yaml` (a name whose only dot leads it
/// has no extension).
pub open spec fn yaml_stem(name: Seq<char>) -> Option<Seq<char>> {
    match last_dot(name) {
        Some(i) => if i > 0 && name.skip(i + 1) == "yaml"@ {
            Some(name.take(i))
        } else {
            None
        },
        None => None,
    }
}

/// The item id the file `name` stands for, if it is a YAML file.
pub fn yaml_stem_exec(name: &str) -> (r: Option<String>)
    ensures
        match r {
            Some(id) => yaml_stem(name@) == Some(id@),
            None => yaml_stem(name@) is None,
        },
{
    let v = chars_of(name);
    let mut k: usize = v.len();
    while k > 0 && v[k - 1] != '.'
        invariant
            k <= v@.len(),
            v@ == name@,
            forall|j: int| k <= j < v@.len() ==> v@[j] != '.',
        decreases k,
    {
        k -= 1;
    }
    if k == 0 {
        proof {
            if exists|i: int| 0 <= i < name@.len() && name@[i] == '.' {
                let i = choose|i: int| 0 <= i < name@.len() && name@[i] == '.';
                assert(v@[i] != '.');
            }
        }
        return None;
    }
    let i = k - 1;
    proof {
        let c = choose|c: int| 0 <= c < name@.len() && name@[c] == '.' && forall|j: int| c < j < name@.len() ==> name@[j] != '.';
        if c < i {
            assert(name@[i as int] == '.');
        }
        if c > i {
            assert(name@[c] != '.');
        }
        assert(last_dot(name@) == Some(i as int));
    }
    let ext = string_of_range(&v, k, v.len());
    let stem = string_of_range(&v, 0, i);
    proof {
        reveal_strlit("yaml");
    }
    if i > 0 && crate::text::str_eq(ext.as_str(), "yaml") {
        Some(stem)
    } else {
        None
    }
}

} // verus!
