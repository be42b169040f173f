//! What every launcher shares: its catalog entry, the environment it adds
//! to the tool it runs, and how its settings are read.
use vstd::prelude::*;

use crate::capabilities::base::BindingType;
use crate::json::json_get;
use crate::json::JsonValue;

verus! {

/// A launcher type as the catalog shows it.
pub struct LauncherMetadata {
    pub name: String,
    pub description: String,
    /// The binary looked up on `PATH` when no explicit path is configured.
    pub default_command: String,
    /// The binding surfaces this launcher type can consume.
    pub supported_capabilities: Vec<BindingType>,
    pub tags: Vec<String>,
}

impl LauncherMetadata {
    /// A launcher type is shown by its description.
    pub fn display(&self) -> (s: String)
        ensures
            s@ == self.description@,
    {
        crate::text::owned(self.description.as_str())
    }
}

/// One environment variable set for the launched tool.
pub struct EnvBinding {
    pub key: String,
    pub value: String,
}

/// The view of an environment overlay: (key, value) pairs in order.
pub open spec fn overlay_view(o: Seq<EnvBinding>) -> Seq<(Seq<char>, Seq<char>)> {
    Seq::new(o.len(), |i: int| (o[i].key@, o[i].value@))
}

/// An environment binding.
pub fn env(key: &str, value: &str) -> (b: EnvBinding)
    ensures
        b.key@ == key@,
        b.value@ == value@,
{
    EnvBinding { key: key.to_string(), value: value.to_string() }
}

/// The binding types in `requested` that are not in `supported`, in order.
pub open spec fn unsupported_types(supported: Seq<BindingType>, requested: Seq<BindingType>) -> Seq<BindingType>
    decreases requested.len(),
{
    if requested.len() == 0 {
        Seq::empty()
    } else {
        let rest = unsupported_types(supported, requested.drop_last());
        if supported.contains(requested.last()) {
            rest
        } else {
            rest.push(requested.last())
        }
    }
}

/// Whether a launcher supporting `supported` can take a capability offering
/// `requested`: `Ok` when every requested type is supported, otherwise the
/// unsupported ones.
pub fn check_binding_types(supported: &Vec<BindingType>, requested: &Vec<BindingType>) -> (r: Result<(), Vec<BindingType>>)
    ensures
        match r {
            Ok(()) => unsupported_types(supported@, requested@).len() == 0,
            Err(missing) => missing@ == unsupported_types(supported@, requested@) && missing@.len() > 0,
        },
{
    let mut missing: Vec<BindingType> = Vec::new();
    let mut i: usize = 0;
    while i < requested.len()
        invariant
            i <= requested@.len(),
            missing@ == unsupported_types(supported@, requested@.take(i as int)),
        decreases requested@.len() - i,
    {
        let t = requested[i];
        let mut found = false;
        let mut j: usize = 0;
        while j < supported.len()
            invariant
                j <= supported@.len(),
                found == exists|k: int| 0 <= k < j && supported@[k] == t,
            decreases supported@.len() - j,
        {
            if supported[j] == t {
                found = true;
            }
            j += 1;
        }
        proof {
            assert(requested@.take(i + 1).drop_last() =~= requested@.take(i as int));
            assert(requested@.take(i + 1).last() == t);
            if found {
                let k = choose|k: int| 0 <= k < j && supported@[k] == t;
                assert(supported@.contains(t));
            }
        }
        if !found {
            missing.push(t);
        }
        i += 1;
    }
    assert(requested@.take(i as int) =~= requested@);
    if missing.len() == 0 {
        Ok(())
    } else {
        Err(missing)
    }
}

/// The settings every launcher reads: an optional explicit path to its binary.
/// Settings that cannot be read (not an object, or a `command_path` that is
/// neither a string nor null) count as none given.
pub open spec fn command_path_setting(cfg: JsonValue) -> Option<Seq<char>> {
    match cfg {
        JsonValue::Object(_) => match json_get(cfg, "command_path"@) {
            Some(JsonValue::Str(s)) => Some(s@),
            _ => None,
        },
        _ => None,
    }
}

/// `cfg`'s `command_path` member is absent, null or a string.
pub open spec fn command_path_readable(cfg: JsonValue) -> bool {
    match json_get(cfg, "command_path"@) {
        None => true,
        Some(JsonValue::Null) => true,
        Some(JsonValue::Str(_)) => true,
        _ => false,
    }
}

/// The explicit binary path set in `cfg`, if any.
pub fn read_command_path(cfg: &JsonValue) -> (r: Option<String>)
    ensures
        match r {
            Some(s) => command_path_setting(*cfg) == Some(s@),
            None => command_path_setting(*cfg) is None,
        },
{
    match cfg {
        JsonValue::Object(_) => match cfg.get("command_path") {
            Some(JsonValue::Str(s)) => {
                proof {
                    reveal_strlit("command_path");
                }
                Some(crate::text::owned(s.as_str()))
            },
            _ => None,
        },
        _ => None,
    }
}

/// The binary a launcher runs: the explicit path when one is set, else its
/// default command.
pub open spec fn command_of(command_path: Option<String>, default: Seq<char>) -> Seq<char> {
    match command_path {
        Some(p) => p@,
        None => default,
    }
}

} // verus!
