//! How well a model variant fits on a machine, and the integer helpers used to report it.
use vstd::prelude::*;
use vstd::arithmetic::power2::pow2;
use vstd::arithmetic::power2::lemma_pow2_unfold;
use vstd::arithmetic::power2::lemma_pow2_pos;

use crate::text::decimal;
use crate::text::join2;
use crate::text::u64_to_string;

verus! {

/// Whether a variant fits at its full context length, at a reduced length
/// (carried, floored to a power of two), or not at all.
#[derive(PartialEq, Eq, Structural, Clone, Copy, Debug)]
pub enum ContextFit {
    Full,
    Partial(u64),
    NoFit,
}

/// Human-readable token count with binary `K`/`M` suffixes.
pub open spec fn token_count_text(tokens: nat) -> Seq<char> {
    if tokens >= 1024 * 1024 {
        decimal(tokens / (1024 * 1024)) + "M"@
    } else if tokens >= 1024 {
        decimal(tokens / 1024) + "K"@
    } else {
        decimal(tokens)
    }
}

/// Human-readable token count with binary `K`/`M` suffixes.
pub fn format_token_count(tokens: u64) -> (s: String)
    ensures
        s@ == token_count_text(tokens as nat),
{
    if tokens >= 1024 * 1024 {
        join2(u64_to_string(tokens / (1024 * 1024)).as_str(), "M")
    } else if tokens >= 1024 {
        join2(u64_to_string(tokens / 1024).as_str(), "K")
    } else {
        u64_to_string(tokens)
    }
}

impl ContextFit {
    /// How the fit is shown to the user.
    pub open spec fn display_spec(self) -> Seq<char> {
        match self {
            ContextFit::Full => "Full"@,
            ContextFit::Partial(n) => "Partial ("@ + token_count_text(n as nat) + ")"@,
            ContextFit::NoFit => "None"@,
        }
    }

    /// How the fit is shown to the user.
    pub fn display(&self) -> (s: String)
        ensures
            s@ == self.display_spec(),
    {
        match self {
            ContextFit::Full => "Full".to_string(),
            ContextFit::Partial(n) => {
                let t = format_token_count(*n);
                let a = join2("Partial (", t.as_str());
                let r = join2(a.as_str(), ")");
                assert(r@ =~= "Partial ("@ + token_count_text(*n as nat) + ")"@);
                r
            },
            ContextFit::NoFit => "None".to_string(),
        }
    }
}

/// The largest power of two that is at most `n` (with `n` treated as at least 1).
pub fn floor_pow2(n: u64) -> (p: u64)
    ensures
        exists|k: nat| k < 64 && p == pow2(k),
        p <= (if n == 0 { 1 } else { n }),
        (if n == 0 { 1 } else { n }) < 2 * p,
{
    let m: u64 = if n == 0 {
        1
    } else {
        n
    };
    let mut p: u64 = 1;
    let ghost mut k: nat = 0;
    proof {
        vstd::arithmetic::power2::lemma2_to64();
    }
    while p <= m / 2
        invariant
            1 <= p <= m,
            k < 64,
            p == pow2(k),
        decreases m - p,
    {
        proof {
            lemma_pow2_unfold(k + 1);
            if k + 1 >= 64 {
                vstd::arithmetic::power2::lemma_pow2_strictly_increases(63, k + 1);
                vstd::arithmetic::power2::lemma2_to64_rest();
            }
        }
        p = p * 2;
        proof {
            k = k + 1;
        }
    }
    p
}

} // verus!
