//! The catalog of launcher types.
use vstd::prelude::*;

use crate::launchers::base::LauncherMetadata;
use crate::launchers::bob::BobLauncher;
use crate::launchers::goose::GooseLauncher;
use crate::launchers::hermes::HermesLauncher;
use crate::launchers::opencode::OpenCodeLauncher;
use crate::launchers::openclaw::OpenClawLauncher;
use crate::registry::Factory;

verus! {

/// Ids of the launcher types, each with its name and default command.
pub open spec fn launcher_types() -> Seq<(Seq<char>, Seq<char>, Seq<char>)> {
    seq![
        ("bob"@, "Bob CLI"@, "bob"@),
        ("goose"@, "Goose CLI"@, "goose"@),
        ("hermes"@, "Hermes CLI"@, "hermes"@),
        ("openclaw"@, "OpenClaw CLI"@, "openclaw"@),
        ("opencode"@, "OpenCode CLI"@, "opencode"@),
    ]
}

/// Every launcher type, registered under its id.
pub fn launcher_registry() -> (f: Factory<LauncherMetadata>)
    ensures
        forall|i: int|
            0 <= i < launcher_types().len() ==> f@.contains_key(#[trigger] launcher_types()[i].0)
                && f@[launcher_types()[i].0].name@ == launcher_types()[i].1
                && f@[launcher_types()[i].0].default_command@ == launcher_types()[i].2,
        forall|k: Seq<char>|
            #[trigger] f@.contains_key(k) ==> exists|i: int| 0 <= i < launcher_types().len() && launcher_types()[i].0 == k,
{
    proof {
        reveal_strlit("bob");
        reveal_strlit("goose");
        reveal_strlit("hermes");
        reveal_strlit("openclaw");
        reveal_strlit("opencode");
    }
    let mut f: Factory<LauncherMetadata> = Factory::new();
    let m1 = BobLauncher::metadata();
    let m2 = GooseLauncher::metadata();
    let m3 = HermesLauncher::metadata();
    let m4 = OpenClawLauncher::metadata();
    let m5 = OpenCodeLauncher::metadata();
    let ghost (g1, g2, g3, g4, g5) = (m1, m2, m3, m4, m5);
    f.register("bob", m1);
    f.register("goose", m2);
    f.register("hermes", m3);
    f.register("openclaw", m4);
    f.register("opencode", m5);
    proof {
        let t = launcher_types();
        assert("bob"@.len() == 3 && "goose"@.len() == 5 && "hermes"@.len() == 6);
        assert("openclaw"@.len() == 8 && "opencode"@.len() == 8);
        assert("openclaw"@[5] != "opencode"@[5]);
        assert(f@["bob"@] == g1);
        assert(f@["goose"@] == g2);
        assert(f@["hermes"@] == g3);
        assert(f@["openclaw"@] == g4);
        assert(f@["opencode"@] == g5);
        assert(t[0].0 == "bob"@ && t[1].0 == "goose"@ && t[2].0 == "hermes"@);
        assert(t[3].0 == "openclaw"@ && t[4].0 == "opencode"@);
        assert forall|k: Seq<char>| #[trigger] f@.contains_key(k) implies exists|i: int|
            0 <= i < launcher_types().len() && launcher_types()[i].0 == k by {
            if k == "bob"@ {
                assert(t[0].0 == k);
            } else if k == "goose"@ {
                assert(t[1].0 == k);
            } else if k == "hermes"@ {
                assert(t[2].0 == k);
            } else if k == "openclaw"@ {
                assert(t[3].0 == k);
            } else {
                assert(t[4].0 == k);
            }
        }
    }
    f
}

} // verus!
