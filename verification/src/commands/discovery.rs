//! What the setup wizard offers: recommendations for the providers, models,
//! launchers and capabilities that are not configured yet, and the filters
//! that narrow each section by what was chosen in the others.
//!
//! Probing a provider's health and looking up a launcher's binary are done by
//! the caller; the functions here take their outcomes.
use vstd::prelude::*;

use crate::capabilities::base::BindingType;
use crate::capabilities::base::CapabilityMetadata;
use crate::commands::lemma_lex_total;
use crate::commands::lemma_lex_transitive;
use crate::commands::lex_lt;
use crate::commands::str_lt;
use crate::launchers::base::LauncherMetadata;
use crate::models::base::ModelType;
use crate::models::base::ModelVariant;
use crate::models::context_fit::ContextFit;
use crate::providers::base::ProviderMetadata;
use crate::registry::Factory;
use crate::strmap::StrMap;
use crate::text::deref_seq;
use crate::text::join2;
use crate::text::string_views;

verus! {

broadcast use crate::text::group_views;

/// A single recommendation produced during discovery.
pub enum Recommendation {
    Provider { provider_type: String, provider_name: String, health_healthy: bool, health_error: Option<String> },
    Model {
        model_id: String,
        family: String,
        version: String,
        size: String,
        model_type: ModelType,
        best_variant: ModelVariant,
        context_fit: ContextFit,
        can_run_by: Vec<String>,
    },
    Launcher { launcher_type: String, launcher_name: String, binary_path: Option<String> },
    Capability { capability_type: String, capability_name: String },
}

/// The name a recommendation is shown and ordered by: the component's name,
/// or for a model its family, version and size separated by spaces.
pub open spec fn display_name_spec(r: Recommendation) -> Seq<char> {
    match r {
        Recommendation::Provider { provider_name, .. } => provider_name@,
        Recommendation::Model { family, version, size, .. } => family@ + " "@ + version@ + " "@ + size@,
        Recommendation::Launcher { launcher_name, .. } => launcher_name@,
        Recommendation::Capability { capability_name, .. } => capability_name@,
    }
}

/// The name a recommendation is shown and ordered by.
pub fn display_name(r: &Recommendation) -> (s: String)
    ensures
        s@ == display_name_spec(*r),
{
    match r {
        Recommendation::Provider { provider_name, .. } => crate::text::owned(provider_name.as_str()),
        Recommendation::Model { family, version, size, .. } => {
            let a = join2(family.as_str(), " ");
            let b = join2(a.as_str(), version.as_str());
            let c = join2(b.as_str(), " ");
            join2(c.as_str(), size.as_str())
        },
        Recommendation::Launcher { launcher_name, .. } => crate::text::owned(launcher_name.as_str()),
        Recommendation::Capability { capability_name, .. } => crate::text::owned(capability_name.as_str()),
    }
}

/// Something shown by name and listed in name order.
pub trait ByName {
    /// The name it is shown and ordered by.
    spec fn name_of(&self) -> Seq<char>;

    /// The name it is shown and ordered by.
    fn name(&self) -> (s: String)
        ensures
            s@ == self.name_of(),
    ;
}

impl ByName for Recommendation {
    open spec fn name_of(&self) -> Seq<char> {
        display_name_spec(*self)
    }

    fn name(&self) -> (s: String) {
        display_name(self)
    }
}

impl ByName for String {
    open spec fn name_of(&self) -> Seq<char> {
        self@
    }

    fn name(&self) -> (s: String) {
        crate::text::owned(self.as_str())
    }
}

/// The items are in name order.
pub open spec fn sorted_by_name<T: ByName>(s: Seq<T>) -> bool {
    forall|i: int, j: int| 0 <= i < j < s.len() ==> !lex_lt(#[trigger] s[j].name_of(), #[trigger] s[i].name_of())
}

proof fn lemma_not_after_transitive(a: Seq<char>, b: Seq<char>, c: Seq<char>)
    requires
        !lex_lt(b, a),
        !lex_lt(c, b),
    ensures
        !lex_lt(c, a),
{
    if lex_lt(c, a) {
        if a != b {
            lemma_lex_total(a, b);
            lemma_lex_transitive(c, a, b);
        }
    }
}

/// The items in name order; those with equal names keep their order.
pub fn sort_by_name<T: ByName>(items: Vec<T>) -> (r: Vec<T>)
    ensures
        sorted_by_name(r@),
        r@.to_multiset() == items@.to_multiset(),
        r@.len() == items@.len(),
{
    broadcast use vstd::seq_lib::group_to_multiset_ensures;

    let ghost input = items@;
    let mut r: Vec<T> = Vec::new();
    let mut rest = items;
    proof {
        assert(input.take(input.len() as int) =~= input);
        assert(input.skip(input.len() as int) =~= Seq::<T>::empty());
    }
    while rest.len() > 0
        invariant
            sorted_by_name(r@),
            rest@ == input.take(rest@.len() as int),
            rest@.len() <= input.len(),
            r@.len() + rest@.len() == input.len(),
            r@.to_multiset() == input.skip(rest@.len() as int).to_multiset(),
        decreases rest@.len(),
    {
        let ghost m = rest@.len() - 1;
        let x = rest.pop().unwrap();
        let ghost xn = x.name_of();
        proof {
            assert(x == input[m]);
            assert(rest@ =~= input.take(m));
        }
        let xname = x.name();
        let mut p: usize = 0;
        while p < r.len() && str_lt(r[p].name().as_str(), xname.as_str())
            invariant
                p <= r@.len(),
                xname@ == xn,
                forall|i: int| 0 <= i < p ==> lex_lt(#[trigger] r@[i].name_of(), xn),
            decreases r@.len() - p,
        {
            p += 1;
        }
        let ghost before = r@;
        r.insert(p, x);
        proof {
            let after = r@;
            let q = p as int;
            assert(after =~= before.insert(q, x));
            assert forall|i: int, j: int| 0 <= i < j < after.len() implies !lex_lt(
                #[trigger] after[j].name_of(),
                #[trigger] after[i].name_of(),
            ) by {
                if j < q {
                    assert(after[i] == before[i] && after[j] == before[j]);
                } else if i > q {
                    assert(after[i] == before[i - 1] && after[j] == before[j - 1]);
                } else if i == q {
                    assert(after[j] == before[j - 1]);
                    assert(!lex_lt(before[q].name_of(), xn));
                    if j - 1 > q {
                        lemma_not_after_transitive(xn, before[q].name_of(), before[j - 1].name_of());
                    }
                } else {
                    assert(after[i] == before[i]);
                    assert(lex_lt(before[i].name_of(), xn));
                    if j == q {
                        crate::commands::lemma_lex_asymmetric(before[i].name_of(), xn);
                    } else {
                        assert(after[j] == before[j - 1]);
                        assert(!lex_lt(before[j - 1].name_of(), before[i].name_of()));
                    }
                }
            }
            vstd::seq_lib::to_multiset_insert(before, q, x);
            assert(input.skip(m) =~= input.skip(m + 1).insert(0, x));
            vstd::seq_lib::to_multiset_insert(input.skip(m + 1), 0, x);
        }
    }
    assert(input.skip(0) =~= input);
    r
}

/*-- what is recommended ------------------------------------------------------*/

/// The component a recommendation is for: its type id, or a model's id.
pub open spec fn rec_key(r: Recommendation) -> Seq<char> {
    match r {
        Recommendation::Provider { provider_type, .. } => provider_type@,
        Recommendation::Model { model_id, .. } => model_id@,
        Recommendation::Launcher { launcher_type, .. } => launcher_type@,
        Recommendation::Capability { capability_type, .. } => capability_type@,
    }
}

/// No two recommendations are for the same component.
pub open spec fn distinct_keys(s: Seq<Recommendation>) -> bool {
    forall|i: int, j: int|
        0 <= i < s.len() && 0 <= j < s.len() && i != j ==> rec_key(#[trigger] s[i]) != rec_key(#[trigger] s[j])
}

/// `recs` recommends each component that `keep` accepts, once, as `valid`
/// describes it, and nothing else.
pub open spec fn recommends_each(
    recs: Seq<Recommendation>,
    keep: spec_fn(Seq<char>) -> bool,
    valid: spec_fn(Recommendation) -> bool,
) -> bool {
    &&& distinct_keys(recs)
    &&& forall|i: int| 0 <= i < recs.len() ==> valid(#[trigger] recs[i]) && keep(rec_key(recs[i]))
    &&& forall|k: Seq<char>| #[trigger] keep(k) ==> exists|i: int| 0 <= i < recs.len() && rec_key(#[trigger] recs[i]) == k
}

/// The view of an optional string.
pub open spec fn opt_view(o: Option<String>) -> Option<Seq<char>> {
    match o {
        Some(s) => Some(s@),
        None => None,
    }
}

proof fn lemma_count_one(a: Seq<Recommendation>, p: int)
    requires
        distinct_keys(a),
        0 <= p < a.len(),
    ensures
        a.to_multiset().count(a[p]) == 1,
{
    broadcast use vstd::seq_lib::group_to_multiset_ensures;

    broadcast use vstd::multiset::group_multiset_axioms;

    let rest = a.remove(p);
    vstd::seq_lib::to_multiset_remove(a, p);
    vstd::seq_lib::to_multiset_contains(rest, a[p]);
    assert(!rest.contains(a[p])) by {
        if rest.contains(a[p]) {
            let k = choose|k: int| 0 <= k < rest.len() && rest[k] == a[p];
            if k < p {
                assert(rest[k] == a[k]);
            } else {
                assert(rest[k] == a[k + 1]);
            }
        }
    }
}

proof fn lemma_count_two(b: Seq<Recommendation>, i: int, j: int)
    requires
        0 <= i < b.len(),
        0 <= j < b.len(),
        i != j,
        b[i] == b[j],
    ensures
        b.to_multiset().count(b[i]) >= 2,
{
    broadcast use vstd::seq_lib::group_to_multiset_ensures;

    broadcast use vstd::multiset::group_multiset_axioms;

    let rest = b.remove(i);
    vstd::seq_lib::to_multiset_remove(b, i);
    if j < i {
        assert(rest[j] == b[j]);
    } else {
        assert(rest[j - 1] == b[j]);
    }
    assert(rest.contains(b[i]));
    vstd::seq_lib::to_multiset_contains(rest, b[i]);
}

/// A reordering of recommendations for distinct components recommends the
/// same components, each once.
proof fn lemma_permuted(a: Seq<Recommendation>, b: Seq<Recommendation>)
    requires
        a.to_multiset() == b.to_multiset(),
        distinct_keys(a),
    ensures
        distinct_keys(b),
        forall|i: int| 0 <= i < b.len() ==> a.contains(#[trigger] b[i]),
        forall|j: int| 0 <= j < a.len() ==> b.contains(#[trigger] a[j]),
{
    broadcast use vstd::seq_lib::group_to_multiset_ensures;

    assert forall|i: int| 0 <= i < b.len() implies a.contains(#[trigger] b[i]) by {
        assert(b.contains(b[i]));
        vstd::seq_lib::to_multiset_contains(b, b[i]);
        vstd::seq_lib::to_multiset_contains(a, b[i]);
    }
    assert forall|j: int| 0 <= j < a.len() implies b.contains(#[trigger] a[j]) by {
        assert(a.contains(a[j]));
        vstd::seq_lib::to_multiset_contains(b, a[j]);
        vstd::seq_lib::to_multiset_contains(a, a[j]);
    }
    assert forall|i: int, j: int|
        0 <= i < b.len() && 0 <= j < b.len() && i != j implies rec_key(#[trigger] b[i]) != rec_key(#[trigger] b[j]) by {
        if rec_key(b[i]) == rec_key(b[j]) {
            assert(a.contains(b[i]));
            assert(a.contains(b[j]));
            let p = choose|p: int| 0 <= p < a.len() && a[p] == b[i];
            let q = choose|q: int| 0 <= q < a.len() && a[q] == b[j];
            assert(p == q);
            lemma_count_two(b, i, j);
            lemma_count_one(a, p);
        }
    }
}

/// Sorting keeps what is recommended.
proof fn lemma_sorted_recommends(
    pre: Seq<Recommendation>,
    sorted: Seq<Recommendation>,
    keep: spec_fn(Seq<char>) -> bool,
    valid: spec_fn(Recommendation) -> bool,
)
    requires
        recommends_each(pre, keep, valid),
        sorted.to_multiset() == pre.to_multiset(),
    ensures
        recommends_each(sorted, keep, valid),
{
    lemma_permuted(pre, sorted);
    assert forall|i: int| 0 <= i < sorted.len() implies valid(#[trigger] sorted[i]) && keep(rec_key(sorted[i])) by {
        assert(pre.contains(sorted[i]));
    }
    assert forall|k: Seq<char>| #[trigger] keep(k) implies exists|i: int| 0 <= i < sorted.len() && rec_key(#[trigger] sorted[i]) == k by {
        let j = choose|j: int| 0 <= j < pre.len() && rec_key(#[trigger] pre[j]) == k;
        assert(sorted.contains(pre[j]));
    }
}

/*-- capabilities -----------------------------------------------------------------*/

/// The recommendation of a capability type, named as in the catalog.
pub open spec fn capability_rec(caps: Map<Seq<char>, CapabilityMetadata>) -> spec_fn(Recommendation) -> bool {
    |r: Recommendation|
        r matches Recommendation::Capability { capability_type: t, capability_name: n } && n@ == caps[t@].name@
}

/// Ids listed each once: exactly the keys of `m`.
pub open spec fn lists_keys<V>(ids: Seq<Seq<char>>, m: Map<Seq<char>, V>) -> bool {
    &&& forall|i: int, j: int| 0 <= i < ids.len() && 0 <= j < ids.len() && i != j ==> #[trigger] ids[i] != #[trigger] ids[j]
    &&& forall|k: Seq<char>| m.contains_key(k) <==> #[trigger] ids.contains(k)
}

/// The ids of `m`, each once.
pub fn keys_of<V>(m: &StrMap<V>) -> (ids: Vec<String>)
    ensures
        lists_keys(string_views(ids@), m@),
{
    let pairs = m.pairs();
    let mut ids: Vec<String> = Vec::new();
    let mut i: usize = 0;
    while i < pairs.len()
        invariant
            i <= pairs@.len(),
            crate::strmap::lists_map(pairs@, m@),
            ids@.len() == i,
            forall|j: int| 0 <= j < i ==> #[trigger] ids@[j]@ == pairs@[j].0@,
        decreases pairs@.len() - i,
    {
        ids.push(crate::text::owned(pairs[i].0.as_str()));
        i += 1;
    }
    proof {
        let v = string_views(ids@);
        assert forall|a: int, b: int| 0 <= a < v.len() && 0 <= b < v.len() && a != b implies #[trigger] v[a] != #[trigger] v[b] by {
            assert(v[a] == pairs@[a].0@ && v[b] == pairs@[b].0@);
        }
        assert forall|k: Seq<char>| m@.contains_key(k) <==> #[trigger] v.contains(k) by {
            if m@.contains_key(k) {
                let j = choose|j: int| 0 <= j < pairs@.len() && #[trigger] pairs@[j].0@ == k;
                assert(v[j] == k);
            }
            if v.contains(k) {
                let j = choose|j: int| 0 <= j < v.len() && v[j] == k;
                assert(v[j] == pairs@[j].0@);
            }
        }
    }
    ids
}

/*-- catalog entries not yet configured -----------------------------------------*/

/// A catalog type that is not configured under its own id.
pub open spec fn catalog_unconfigured<M, V>(
    catalog: Map<Seq<char>, M>,
    configured: Map<Seq<char>, V>,
) -> spec_fn(Seq<char>) -> bool {
    |k: Seq<char>| catalog.contains_key(k) && !configured.contains_key(k)
}

/// A catalog type that is configured under its own id.
pub open spec fn catalog_configured<M, V>(
    catalog: Map<Seq<char>, M>,
    configured: Map<Seq<char>, V>,
) -> spec_fn(Seq<char>) -> bool {
    |k: Seq<char>| catalog.contains_key(k) && configured.contains_key(k)
}

/// `s` lists, each once, the entries of `m` whose key `keep` accepts.
pub open spec fn lists_entries_where<M>(
    s: Seq<(String, M)>,
    m: Map<Seq<char>, M>,
    keep: spec_fn(Seq<char>) -> bool,
) -> bool {
    &&& forall|i: int, j: int| 0 <= i < s.len() && 0 <= j < s.len() && i != j ==> #[trigger] s[i].0@ != #[trigger] s[j].0@
    &&& forall|i: int| 0 <= i < s.len() ==> keep(#[trigger] s[i].0@) && m.contains_key(s[i].0@) && m[s[i].0@] == s[i].1
    &&& forall|k: Seq<char>| #[trigger] keep(k) ==> exists|i: int| 0 <= i < s.len() && #[trigger] s[i].0@ == k
}

/// `ids` lists, each once, the ids that `keep` accepts.
pub open spec fn lists_ids_where(ids: Seq<Seq<char>>, keep: spec_fn(Seq<char>) -> bool) -> bool {
    &&& forall|i: int, j: int| 0 <= i < ids.len() && 0 <= j < ids.len() && i != j ==> #[trigger] ids[i] != #[trigger] ids[j]
    &&& forall|k: Seq<char>| #[trigger] keep(k) <==> ids.contains(k)
}

/// The entries of `catalog` whose type is (`want_configured`) or is not
/// configured under its own id, in catalog order.
pub fn catalog_entries<'a, M, V>(catalog: &'a Factory<M>, configured: &StrMap<V>, want_configured: bool) -> (r: Vec<
    &'a (String, M),
>)
    ensures
        lists_entries_where(
            deref_seq(r@),
            catalog@,
            if want_configured {
                catalog_configured(catalog@, configured@)
            } else {
                catalog_unconfigured(catalog@, configured@)
            },
        ),
{
    let ghost keep = if want_configured {
        catalog_configured(catalog@, configured@)
    } else {
        catalog_unconfigured(catalog@, configured@)
    };
    let pairs = catalog.list();
    let mut r: Vec<&'a (String, M)> = Vec::new();
    let mut i: usize = 0;
    while i < pairs.len()
        invariant
            i <= pairs@.len(),
            crate::strmap::lists_map(pairs@, catalog@),
            keep == (if want_configured {
                catalog_configured(catalog@, configured@)
            } else {
                catalog_unconfigured(catalog@, configured@)
            }),
            forall|a: int, b: int|
                0 <= a < r@.len() && 0 <= b < r@.len() && a != b ==> #[trigger] r@[a].0@ != #[trigger] r@[b].0@,
            forall|a: int| 0 <= a < r@.len() ==> keep(#[trigger] r@[a].0@) && catalog@.contains_key(r@[a].0@)
                && catalog@[r@[a].0@] == r@[a].1,
            forall|a: int| 0 <= a < r@.len() ==> exists|j: int| 0 <= j < i && #[trigger] r@[a].0@ == pairs@[j].0@,
            forall|j: int| 0 <= j < i && keep(#[trigger] pairs@[j].0@) ==> exists|a: int| 0 <= a < r@.len() && #[trigger] r@[a].0@ == pairs@[j].0@,
        decreases pairs@.len() - i,
    {
        let is_configured = configured.contains_key(pairs[i].0.as_str());
        if is_configured == want_configured {
            let ghost before = r@;
            let e = &pairs[i];
            r.push(e);
            proof {
                let n = before.len() as int;
                assert forall|a: int| 0 <= a < n implies #[trigger] r@[a].0@ != pairs@[i as int].0@ by {
                    assert(r@[a] == before[a]);
                    let j = choose|j: int| 0 <= j < i && #[trigger] before[a].0@ == pairs@[j].0@;
                    assert(pairs@[j].0@ != pairs@[i as int].0@);
                }
                assert forall|a: int| 0 <= a < r@.len() implies exists|j: int| 0 <= j < i + 1 && #[trigger] r@[a].0@ == pairs@[j].0@ by {
                    if a < n {
                        assert(r@[a] == before[a]);
                    } else {
                        assert(r@[a] == pairs@[i as int]);
                    }
                }
                assert forall|j: int| 0 <= j < i + 1 && keep(#[trigger] pairs@[j].0@) implies exists|a: int| 0 <= a < r@.len() && #[trigger] r@[a].0@ == pairs@[j].0@ by {
                    if j < i {
                        let a = choose|a: int| 0 <= a < before.len() && #[trigger] before[a].0@ == pairs@[j].0@;
                        assert(r@[a] == before[a]);
                    } else {
                        assert(r@[n] == pairs@[j]);
                    }
                }
            }
        }
        i += 1;
    }
    proof {
        let d = deref_seq(r@);
        assert forall|a: int, b: int| 0 <= a < d.len() && 0 <= b < d.len() && a != b implies #[trigger] d[a].0@ != #[trigger] d[b].0@ by {
            assert(d[a] == *r@[a] && d[b] == *r@[b]);
        }
        assert forall|a: int| 0 <= a < d.len() implies keep(#[trigger] d[a].0@) && catalog@.contains_key(d[a].0@)
            && catalog@[d[a].0@] == d[a].1 by {
            assert(d[a] == *r@[a]);
        }
        assert forall|k: Seq<char>| #[trigger] keep(k) implies exists|a: int| 0 <= a < d.len() && #[trigger] d[a].0@ == k by {
            let j = choose|j: int| 0 <= j < pairs@.len() && #[trigger] pairs@[j].0@ == k;
            assert(keep(pairs@[j].0@));
            let a = choose|a: int| 0 <= a < r@.len() && #[trigger] r@[a].0@ == pairs@[j].0@;
            assert(d[a] == *r@[a]);
        }
    }
    r
}

/// The types of `catalog` that are not configured under their own id: those
/// whose health or binary the caller is to look up.
pub fn unconfigured_types<M, V>(catalog: &Factory<M>, configured: &StrMap<V>) -> (ids: Vec<String>)
    ensures
        lists_ids_where(string_views(ids@), catalog_unconfigured(catalog@, configured@)),
{
    let entries = catalog_entries(catalog, configured, false);
    ids_of_entries(&entries)
}

fn ids_of_entries<M>(entries: &Vec<&(String, M)>) -> (ids: Vec<String>)
    ensures
        string_views(ids@) == Seq::new(entries@.len(), |i: int| entries@[i].0@),
        forall|keep: spec_fn(Seq<char>) -> bool, m: Map<Seq<char>, M>|
            #[trigger] lists_entries_where(deref_seq(entries@), m, keep) ==> lists_ids_where(string_views(ids@), keep),
{
    let mut ids: Vec<String> = Vec::new();
    let mut i: usize = 0;
    while i < entries.len()
        invariant
            i <= entries@.len(),
            ids@.len() == i,
            forall|j: int| 0 <= j < i ==> #[trigger] ids@[j]@ == entries@[j].0@,
        decreases entries@.len() - i,
    {
        ids.push(crate::text::owned(entries[i].0.as_str()));
        i += 1;
    }
    let ghost v = string_views(ids@);
    assert(v =~= Seq::new(entries@.len(), |i: int| entries@[i].0@));
    proof {
        assert forall|keep: spec_fn(Seq<char>) -> bool, m: Map<Seq<char>, M>|
            #[trigger] lists_entries_where(deref_seq(entries@), m, keep) implies lists_ids_where(v, keep) by {
            let d = deref_seq(entries@);
            assert forall|a: int, b: int| 0 <= a < v.len() && 0 <= b < v.len() && a != b implies #[trigger] v[a] != #[trigger] v[b] by {
                assert(v[a] == d[a].0@ && v[b] == d[b].0@);
            }
            assert forall|k: Seq<char>| #[trigger] keep(k) <==> v.contains(k) by {
                if keep(k) {
                    let a = choose|a: int| 0 <= a < d.len() && #[trigger] d[a].0@ == k;
                    assert(v[a] == k);
                }
                if v.contains(k) {
                    let a = choose|a: int| 0 <= a < v.len() && v[a] == k;
                    assert(v[a] == d[a].0@);
                }
            }
        }
    }
    ids
}

proof fn lemma_count_one_str(a: Seq<String>, p: int)
    requires
        forall|i: int, j: int| 0 <= i < a.len() && 0 <= j < a.len() && i != j ==> #[trigger] a[i]@ != #[trigger] a[j]@,
        0 <= p < a.len(),
    ensures
        a.to_multiset().count(a[p]) == 1,
{
    broadcast use vstd::seq_lib::group_to_multiset_ensures;
    broadcast use vstd::multiset::group_multiset_axioms;

    let rest = a.remove(p);
    vstd::seq_lib::to_multiset_remove(a, p);
    vstd::seq_lib::to_multiset_contains(rest, a[p]);
    assert(!rest.contains(a[p])) by {
        if rest.contains(a[p]) {
            let k = choose|k: int| 0 <= k < rest.len() && rest[k] == a[p];
            if k < p {
                assert(rest[k] == a[k]);
                assert(a[k]@ == a[p]@);
            } else {
                assert(rest[k] == a[k + 1]);
                assert(a[k + 1]@ == a[p]@);
            }
        }
    }
}

proof fn lemma_count_two_str(b: Seq<String>, i: int, j: int)
    requires
        0 <= i < b.len(),
        0 <= j < b.len(),
        i != j,
        b[i] == b[j],
    ensures
        b.to_multiset().count(b[i]) >= 2,
{
    broadcast use vstd::seq_lib::group_to_multiset_ensures;
    broadcast use vstd::multiset::group_multiset_axioms;

    let rest = b.remove(i);
    vstd::seq_lib::to_multiset_remove(b, i);
    if j < i {
        assert(rest[j] == b[j]);
    } else {
        assert(rest[j - 1] == b[j]);
    }
    assert(rest.contains(b[i]));
    vstd::seq_lib::to_multiset_contains(rest, b[i]);
}

/// Reordering distinct ids keeps which ids are listed.
proof fn lemma_permuted_ids(a: Seq<String>, b: Seq<String>, keep: spec_fn(Seq<char>) -> bool)
    requires
        a.to_multiset() == b.to_multiset(),
        lists_ids_where(string_views(a), keep),
    ensures
        lists_ids_where(string_views(b), keep),
{
    broadcast use vstd::seq_lib::group_to_multiset_ensures;

    let va = string_views(a);
    let vb = string_views(b);
    assert forall|i: int| 0 <= i < b.len() implies a.contains(#[trigger] b[i]) by {
        assert(b.contains(b[i]));
        vstd::seq_lib::to_multiset_contains(b, b[i]);
        vstd::seq_lib::to_multiset_contains(a, b[i]);
    }
    assert forall|j: int| 0 <= j < a.len() implies b.contains(#[trigger] a[j]) by {
        assert(a.contains(a[j]));
        vstd::seq_lib::to_multiset_contains(b, a[j]);
        vstd::seq_lib::to_multiset_contains(a, a[j]);
    }
    assert forall|i: int, j: int| 0 <= i < a.len() && 0 <= j < a.len() && i != j implies #[trigger] a[i]@ != #[trigger] a[j]@ by {
        assert(va[i] == a[i]@ && va[j] == a[j]@);
    }
    assert forall|i: int, j: int| 0 <= i < vb.len() && 0 <= j < vb.len() && i != j implies #[trigger] vb[i] != #[trigger] vb[j] by {
        if vb[i] == vb[j] {
            let p = choose|p: int| 0 <= p < a.len() && a[p] == b[i];
            let q = choose|q: int| 0 <= q < a.len() && a[q] == b[j];
            assert(va[p] == vb[i] && va[q] == vb[j]);
            assert(p == q);
            lemma_count_two_str(b, i, j);
            lemma_count_one_str(a, p);
        }
    }
    assert forall|k: Seq<char>| #[trigger] keep(k) <==> vb.contains(k) by {
        if keep(k) {
            let p = choose|p: int| 0 <= p < va.len() && va[p] == k;
            let i = choose|i: int| 0 <= i < b.len() && b[i] == a[p];
            assert(vb[i] == k);
        }
        if vb.contains(k) {
            let i = choose|i: int| 0 <= i < vb.len() && vb[i] == k;
            let p = choose|p: int| 0 <= p < a.len() && a[p] == b[i];
            assert(va[p] == k);
        }
    }
}

/// The types of `catalog` that are configured under their own id, by name.
pub fn configured_types<M, V>(catalog: &Factory<M>, configured: &StrMap<V>) -> (ids: Vec<String>)
    ensures
        sorted_by_name(ids@),
        lists_ids_where(string_views(ids@), catalog_configured(catalog@, configured@)),
{
    let entries = catalog_entries(catalog, configured, true);
    let ids = ids_of_entries(&entries);
    let sorted = sort_by_name(ids);
    proof {
        lemma_permuted_ids(ids@, sorted@, catalog_configured(catalog@, configured@));
    }
    sorted
}

/// Recommendations made one for each listed entry, for that entry's
/// component, recommend exactly the listed components.
proof fn lemma_recs_of_entries<M>(
    entries: Seq<(String, M)>,
    m: Map<Seq<char>, M>,
    keep: spec_fn(Seq<char>) -> bool,
    recs: Seq<Recommendation>,
    valid: spec_fn(Recommendation) -> bool,
)
    requires
        lists_entries_where(entries, m, keep),
        recs.len() == entries.len(),
        forall|i: int| 0 <= i < recs.len() ==> rec_key(#[trigger] recs[i]) == entries[i].0@ && valid(recs[i]),
    ensures
        recommends_each(recs, keep, valid),
{
    assert forall|i: int, j: int| 0 <= i < recs.len() && 0 <= j < recs.len() && i != j implies rec_key(#[trigger] recs[i])
        != rec_key(#[trigger] recs[j]) by {
        assert(entries[i].0@ != entries[j].0@);
    }
    assert forall|i: int| 0 <= i < recs.len() implies valid(#[trigger] recs[i]) && keep(rec_key(recs[i])) by {
        assert(keep(entries[i].0@));
    }
    assert forall|k: Seq<char>| #[trigger] keep(k) implies exists|i: int| 0 <= i < recs.len() && rec_key(#[trigger] recs[i]) == k by {
        let i = choose|i: int| 0 <= i < entries.len() && #[trigger] entries[i].0@ == k;
        assert(rec_key(recs[i]) == k);
    }
}

fn copy_opt_string(o: &Option<String>) -> (r: Option<String>)
    ensures
        opt_view(r) == opt_view(*o),
{
    match o {
        Some(s) => Some(crate::text::owned(s.as_str())),
        None => None,
    }
}

/*-- capabilities -------------------------------------------------------------------*/

/// The capability types of the catalog that are not configured, by name,
/// and the ids of the configured capabilities.
pub fn discover_capabilities<V>(caps: &Factory<CapabilityMetadata>, configured: &StrMap<V>) -> (r: (
    Vec<Recommendation>,
    Vec<String>,
))
    ensures
        sorted_by_name(r.0@),
        recommends_each(r.0@, catalog_unconfigured(caps@, configured@), capability_rec(caps@)),
        lists_keys(string_views(r.1@), configured@),
{
    let ghost valid = capability_rec(caps@);
    let entries = catalog_entries(caps, configured, false);
    let mut recs: Vec<Recommendation> = Vec::new();
    let mut i: usize = 0;
    while i < entries.len()
        invariant
            i <= entries@.len(),
            valid == capability_rec(caps@),
            lists_entries_where(deref_seq(entries@), caps@, catalog_unconfigured(caps@, configured@)),
            recs@.len() == i,
            forall|j: int| 0 <= j < i ==> rec_key(#[trigger] recs@[j]) == entries@[j].0@ && valid(recs@[j]),
        decreases entries@.len() - i,
    {
        let e = entries[i];
        proof {
            assert(deref_seq(entries@)[i as int] == *e);
        }
        recs.push(
            Recommendation::Capability {
                capability_type: crate::text::owned(e.0.as_str()),
                capability_name: crate::text::owned(e.1.name.as_str()),
            },
        );
        i += 1;
    }
    proof {
        assert forall|j: int| 0 <= j < recs@.len() implies rec_key(#[trigger] recs@[j]) == deref_seq(entries@)[j].0@
            && valid(recs@[j]) by {
            assert(deref_seq(entries@)[j] == *entries@[j]);
        }
        lemma_recs_of_entries(deref_seq(entries@), caps@, catalog_unconfigured(caps@, configured@), recs@, valid);
    }
    let sorted = sort_by_name(recs);
    proof {
        lemma_sorted_recommends(recs@, sorted@, catalog_unconfigured(caps@, configured@), valid);
    }
    (sorted, keys_of(configured))
}

/*-- providers -----------------------------------------------------------------------*/

/// What probing a provider type came to: its health check answered, the
/// check failed, or no instance could be made from its default settings.
pub enum ProbeOutcome {
    Checked { healthy: bool, error: Option<String> },
    CheckFailed(String),
    NotConstructed,
}

/// How a probe's outcome is shown in a recommendation.
pub open spec fn probe_shown(o: ProbeOutcome, healthy: bool, error: Option<Seq<char>>) -> bool {
    match o {
        ProbeOutcome::Checked { healthy: h, error: e } => healthy == h && error == opt_view(e),
        ProbeOutcome::CheckFailed(msg) => !healthy && error == Some("Health check failed: "@ + msg@),
        ProbeOutcome::NotConstructed => !healthy && error == Some(
            "Could not construct provider with default config"@,
        ),
    }
}

/// The recommendation of a provider type: named as in the catalog, with the
/// outcome of its probe.
pub open spec fn provider_rec(
    catalog: Map<Seq<char>, ProviderMetadata>,
    outcomes: Map<Seq<char>, ProbeOutcome>,
) -> spec_fn(Recommendation) -> bool {
    |r: Recommendation|
        r matches Recommendation::Provider { provider_type: t, provider_name: n, health_healthy: h, health_error: e }
            && n@ == catalog[t@].name@ && probe_shown(outcomes[t@], h, opt_view(e))
}

/// The provider types of the catalog that are not configured, each with the
/// outcome of its probe, by name; and the configured types, by name.
pub fn discover_providers<V>(
    catalog: &Factory<ProviderMetadata>,
    configured: &StrMap<V>,
    outcomes: &StrMap<ProbeOutcome>,
) -> (r: (Vec<Recommendation>, Vec<String>))
    requires
        forall|k: Seq<char>| #[trigger] catalog@.contains_key(k) && !configured@.contains_key(k) ==> outcomes@.contains_key(k),
    ensures
        sorted_by_name(r.0@),
        recommends_each(r.0@, catalog_unconfigured(catalog@, configured@), provider_rec(catalog@, outcomes@)),
        sorted_by_name(r.1@),
        lists_ids_where(string_views(r.1@), catalog_configured(catalog@, configured@)),
{
    let ghost keep = catalog_unconfigured(catalog@, configured@);
    let ghost valid = provider_rec(catalog@, outcomes@);
    let entries = catalog_entries(catalog, configured, false);
    let mut recs: Vec<Recommendation> = Vec::new();
    let mut i: usize = 0;
    while i < entries.len()
        invariant
            i <= entries@.len(),
            keep == catalog_unconfigured(catalog@, configured@),
            valid == provider_rec(catalog@, outcomes@),
            lists_entries_where(deref_seq(entries@), catalog@, keep),
            forall|k: Seq<char>| #[trigger] catalog@.contains_key(k) && !configured@.contains_key(k) ==> outcomes@.contains_key(k),
            recs@.len() == i,
            forall|j: int| 0 <= j < i ==> rec_key(#[trigger] recs@[j]) == entries@[j].0@ && valid(recs@[j]),
        decreases entries@.len() - i,
    {
        let e = entries[i];
        proof {
            assert(deref_seq(entries@)[i as int] == *e);
            assert(keep(e.0@));
            assert(catalog@.contains_key(e.0@));
        }
        let (healthy, error) = match outcomes.get(e.0.as_str()) {
            Some(ProbeOutcome::Checked { healthy, error }) => (*healthy, copy_opt_string(error)),
            Some(ProbeOutcome::CheckFailed(msg)) => (false, Some(join2("Health check failed: ", msg.as_str()))),
            _ => (false, Some("Could not construct provider with default config".to_string())),
        };
        let rec = Recommendation::Provider {
            provider_type: crate::text::owned(e.0.as_str()),
            provider_name: crate::text::owned(e.1.name.as_str()),
            health_healthy: healthy,
            health_error: error,
        };
        recs.push(rec);
        i += 1;
    }
    proof {
        assert forall|j: int| 0 <= j < recs@.len() implies rec_key(#[trigger] recs@[j]) == deref_seq(entries@)[j].0@
            && valid(recs@[j]) by {
            assert(deref_seq(entries@)[j] == *entries@[j]);
        }
        lemma_recs_of_entries(deref_seq(entries@), catalog@, keep, recs@, valid);
    }
    let sorted = sort_by_name(recs);
    proof {
        lemma_sorted_recommends(recs@, sorted@, keep, valid);
    }
    (sorted, configured_types(catalog, configured))
}

/*-- launchers -----------------------------------------------------------------------*/

/// The recommendation of a launcher type: named as in the catalog, with the
/// binary found for it, if any.
pub open spec fn launcher_rec(
    catalog: Map<Seq<char>, LauncherMetadata>,
    binaries: Map<Seq<char>, Option<String>>,
) -> spec_fn(Recommendation) -> bool {
    |r: Recommendation|
        r matches Recommendation::Launcher { launcher_type: t, launcher_name: n, binary_path: b } && n@
            == catalog[t@].name@ && opt_view(b) == opt_view(binaries[t@])
}

/// The launcher types of the catalog that are not configured, each with the
/// binary found for it, by name; and the configured types, by name.
pub fn discover_launchers<V>(
    catalog: &Factory<LauncherMetadata>,
    configured: &StrMap<V>,
    binaries: &StrMap<Option<String>>,
) -> (r: (Vec<Recommendation>, Vec<String>))
    requires
        forall|k: Seq<char>| #[trigger] catalog@.contains_key(k) && !configured@.contains_key(k) ==> binaries@.contains_key(k),
    ensures
        sorted_by_name(r.0@),
        recommends_each(r.0@, catalog_unconfigured(catalog@, configured@), launcher_rec(catalog@, binaries@)),
        sorted_by_name(r.1@),
        lists_ids_where(string_views(r.1@), catalog_configured(catalog@, configured@)),
{
    let ghost keep = catalog_unconfigured(catalog@, configured@);
    let ghost valid = launcher_rec(catalog@, binaries@);
    let entries = catalog_entries(catalog, configured, false);
    let mut recs: Vec<Recommendation> = Vec::new();
    let mut i: usize = 0;
    while i < entries.len()
        invariant
            i <= entries@.len(),
            keep == catalog_unconfigured(catalog@, configured@),
            valid == launcher_rec(catalog@, binaries@),
            lists_entries_where(deref_seq(entries@), catalog@, keep),
            forall|k: Seq<char>| #[trigger] catalog@.contains_key(k) && !configured@.contains_key(k) ==> binaries@.contains_key(k),
            recs@.len() == i,
            forall|j: int| 0 <= j < i ==> rec_key(#[trigger] recs@[j]) == entries@[j].0@ && valid(recs@[j]),
        decreases entries@.len() - i,
    {
        let e = entries[i];
        proof {
            assert(deref_seq(entries@)[i as int] == *e);
            assert(keep(e.0@));
            assert(catalog@.contains_key(e.0@));
        }
        let path = match binaries.get(e.0.as_str()) {
            Some(p) => copy_opt_string(p),
            None => None,
        };
        let rec = Recommendation::Launcher {
            launcher_type: crate::text::owned(e.0.as_str()),
            launcher_name: crate::text::owned(e.1.name.as_str()),
            binary_path: path,
        };
        recs.push(rec);
        i += 1;
    }
    proof {
        assert forall|j: int| 0 <= j < recs@.len() implies rec_key(#[trigger] recs@[j]) == deref_seq(entries@)[j].0@
            && valid(recs@[j]) by {
            assert(deref_seq(entries@)[j] == *entries@[j]);
        }
        lemma_recs_of_entries(deref_seq(entries@), catalog@, keep, recs@, valid);
    }
    let sorted = sort_by_name(recs);
    proof {
        lemma_sorted_recommends(recs@, sorted@, keep, valid);
    }
    (sorted, configured_types(catalog, configured))
}

/*-- narrowing by earlier choices ------------------------------------------------------*/

/// The recommendations at the positions `mask` marks, in order.
fn keep_where<'a>(
    recs: &'a Vec<Recommendation>,
    mask: &Vec<bool>,
    Ghost(keep): Ghost<spec_fn(Recommendation) -> bool>,
) -> (r: Vec<&'a Recommendation>)
    requires
        mask@.len() == recs@.len(),
        forall|i: int| 0 <= i < recs@.len() ==> mask@[i] == keep(#[trigger] recs@[i]),
    ensures
        deref_seq(r@) == recs@.filter(keep),
{
    let mut r: Vec<&'a Recommendation> = Vec::new();
    let mut i: usize = 0;
    proof {
        reveal(Seq::filter);
        assert(recs@.take(0) =~= Seq::<Recommendation>::empty());
        assert(deref_seq(r@) =~= recs@.take(0).filter(keep));
    }
    while i < recs.len()
        invariant
            i <= recs@.len(),
            mask@.len() == recs@.len(),
            forall|j: int| 0 <= j < recs@.len() ==> mask@[j] == keep(#[trigger] recs@[j]),
            deref_seq(r@) == recs@.take(i as int).filter(keep),
        decreases recs@.len() - i,
    {
        let ghost before = deref_seq(r@);
        proof {
            reveal(Seq::filter);
            assert(recs@.take(i + 1).drop_last() =~= recs@.take(i as int));
            assert(recs@.take(i + 1).last() == recs@[i as int]);
        }
        if mask[i] {
            let x = &recs[i];
            r.push(x);
            assert(deref_seq(r@) =~= before.push(recs@[i as int]));
        }
        i += 1;
    }
    assert(recs@.take(i as int) =~= recs@);
    r
}

fn contains_binding(types: &Vec<BindingType>, t: BindingType) -> (b: bool)
    ensures
        b == types@.contains(t),
{
    let mut i: usize = 0;
    while i < types.len()
        invariant
            i <= types@.len(),
            forall|j: int| 0 <= j < i ==> types@[j] != t,
        decreases types@.len() - i,
    {
        if types[i] == t {
            assert(types@[i as int] == t);
            return true;
        }
        i += 1;
    }
    false
}

fn any_binding_in(types: &Vec<BindingType>, wanted: &Vec<BindingType>) -> (b: bool)
    ensures
        b == exists|k: int| 0 <= k < types@.len() && wanted@.contains(#[trigger] types@[k]),
{
    let mut i: usize = 0;
    while i < types.len()
        invariant
            i <= types@.len(),
            forall|j: int| 0 <= j < i ==> !wanted@.contains(#[trigger] types@[j]),
        decreases types@.len() - i,
    {
        if contains_binding(wanted, types[i]) {
            return true;
        }
        i += 1;
    }
    false
}

/// The capability types among `selected` need binding surface `bt`.
pub open spec fn needed_binding(
    bt: BindingType,
    selected: Seq<Seq<char>>,
    caps: Map<Seq<char>, CapabilityMetadata>,
) -> bool {
    exists|i: int|
        0 <= i < selected.len() && caps.contains_key(#[trigger] selected[i]) && caps[selected[i]].binding_types@.contains(
            bt,
        )
}

/// The launcher types among `selected` can consume binding surface `bt`.
pub open spec fn consumed_binding(
    bt: BindingType,
    selected: Seq<Seq<char>>,
    launchers: Map<Seq<char>, LauncherMetadata>,
) -> bool {
    exists|i: int|
        0 <= i < selected.len() && launchers.contains_key(#[trigger] selected[i])
            && launchers[selected[i]].supported_capabilities@.contains(bt)
}

/// The surfaces the selected capability types need, each at least once.
fn needed_bindings(selected: &Vec<String>, caps: &Factory<CapabilityMetadata>) -> (needed: Vec<BindingType>)
    ensures
        forall|bt: BindingType| #[trigger] needed@.contains(bt) <==> needed_binding(bt, string_views(selected@), caps@),
{
    let ghost sel = string_views(selected@);
    let mut needed: Vec<BindingType> = Vec::new();
    let mut i: usize = 0;
    while i < selected.len()
        invariant
            i <= selected@.len(),
            sel == string_views(selected@),
            forall|bt: BindingType| #[trigger] needed@.contains(bt) <==> needed_binding(bt, sel.take(i as int), caps@),
        decreases selected@.len() - i,
    {
        let ghost before = needed@;
        match caps.get(selected[i].as_str()) {
            Some(m) => {
                let mut k: usize = 0;
                while k < m.binding_types.len()
                    invariant
                        k <= m.binding_types@.len(),
                        forall|bt: BindingType| #[trigger] needed@.contains(bt) <==> (before.contains(bt) || exists|j: int| 0 <= j < k && m.binding_types@[j] == bt),
                    decreases m.binding_types@.len() - k,
                {
                    let ghost prev = needed@;
                    needed.push(m.binding_types[k]);
                    proof {
                        assert forall|bt: BindingType| #[trigger] needed@.contains(bt) <==> (before.contains(bt) || exists|j: int| 0 <= j < k + 1 && m.binding_types@[j] == bt) by {
                            if needed@.contains(bt) {
                                let a = choose|a: int| 0 <= a < needed@.len() && needed@[a] == bt;
                                if a < prev.len() {
                                    assert(prev[a] == bt);
                                    assert(prev.contains(bt));
                                }
                            }
                            if exists|j: int| 0 <= j < k + 1 && m.binding_types@[j] == bt {
                                let j = choose|j: int| 0 <= j < k + 1 && m.binding_types@[j] == bt;
                                if j < k {
                                    assert(prev.contains(bt));
                                    let a = choose|a: int| 0 <= a < prev.len() && prev[a] == bt;
                                    assert(needed@[a] == bt);
                                } else {
                                    assert(needed@[prev.len() as int] == bt);
                                }
                            }
                            if before.contains(bt) {
                                assert(prev.contains(bt));
                                let a = choose|a: int| 0 <= a < prev.len() && prev[a] == bt;
                                assert(needed@[a] == bt);
                            }
                        }
                    }
                    k += 1;
                }
                proof {
                    assert forall|bt: BindingType| #[trigger] needed@.contains(bt) <==> needed_binding(bt, sel.take(i + 1), caps@) by {
                        let t = sel.take(i + 1);
                        assert(t[i as int] == selected@[i as int]@);
                        if needed_binding(bt, t, caps@) {
                            let j = choose|j: int| 0 <= j < t.len() && caps@.contains_key(#[trigger] t[j]) && caps@[t[j]].binding_types@.contains(bt);
                            if j < i {
                                assert(sel.take(i as int)[j] == t[j]);
                                assert(needed_binding(bt, sel.take(i as int), caps@));
                            } else {
                                let q = choose|q: int| 0 <= q < m.binding_types@.len() && m.binding_types@[q] == bt;
                            }
                        }
                        if needed@.contains(bt) {
                            if before.contains(bt) {
                                let j = choose|j: int| 0 <= j < i && caps@.contains_key(#[trigger] sel.take(i as int)[j]) && caps@[sel.take(i as int)[j]].binding_types@.contains(bt);
                                assert(sel.take(i as int)[j] == t[j]);
                            } else {
                                let q = choose|q: int| 0 <= q < k && m.binding_types@[q] == bt;
                                assert(m.binding_types@.contains(bt));
                                assert(caps@.contains_key(t[i as int]));
                            }
                        }
                    }
                }
            },
            None => {
                proof {
                    assert forall|bt: BindingType| #[trigger] needed@.contains(bt) <==> needed_binding(bt, sel.take(i + 1), caps@) by {
                        let t = sel.take(i + 1);
                        assert(t[i as int] == selected@[i as int]@);
                        if needed_binding(bt, t, caps@) {
                            let j = choose|j: int| 0 <= j < t.len() && caps@.contains_key(#[trigger] t[j]) && caps@[t[j]].binding_types@.contains(bt);
                            assert(j < i);
                            assert(sel.take(i as int)[j] == t[j]);
                        }
                        if needed@.contains(bt) {
                            let j = choose|j: int| 0 <= j < i && caps@.contains_key(#[trigger] sel.take(i as int)[j]) && caps@[sel.take(i as int)[j]].binding_types@.contains(bt);
                            assert(sel.take(i as int)[j] == t[j]);
                        }
                    }
                }
            },
        }
        i += 1;
    }
    assert(sel.take(i as int) =~= sel);
    needed
}

/// The surfaces the selected launcher types can consume, each at least once.
fn consumed_bindings(selected: &Vec<String>, caps: &Factory<LauncherMetadata>) -> (needed: Vec<BindingType>)
    ensures
        forall|bt: BindingType| #[trigger] needed@.contains(bt) <==> consumed_binding(bt, string_views(selected@), caps@),
{
    let ghost sel = string_views(selected@);
    let mut needed: Vec<BindingType> = Vec::new();
    let mut i: usize = 0;
    while i < selected.len()
        invariant
            i <= selected@.len(),
            sel == string_views(selected@),
            forall|bt: BindingType| #[trigger] needed@.contains(bt) <==> consumed_binding(bt, sel.take(i as int), caps@),
        decreases selected@.len() - i,
    {
        let ghost before = needed@;
        match caps.get(selected[i].as_str()) {
            Some(m) => {
                let mut k: usize = 0;
                while k < m.supported_capabilities.len()
                    invariant
                        k <= m.supported_capabilities@.len(),
                        forall|bt: BindingType| #[trigger] needed@.contains(bt) <==> (before.contains(bt) || exists|j: int| 0 <= j < k && m.supported_capabilities@[j] == bt),
                    decreases m.supported_capabilities@.len() - k,
                {
                    let ghost prev = needed@;
                    needed.push(m.supported_capabilities[k]);
                    proof {
                        assert forall|bt: BindingType| #[trigger] needed@.contains(bt) <==> (before.contains(bt) || exists|j: int| 0 <= j < k + 1 && m.supported_capabilities@[j] == bt) by {
                            if needed@.contains(bt) {
                                let a = choose|a: int| 0 <= a < needed@.len() && needed@[a] == bt;
                                if a < prev.len() {
                                    assert(prev[a] == bt);
                                    assert(prev.contains(bt));
                                }
                            }
                            if exists|j: int| 0 <= j < k + 1 && m.supported_capabilities@[j] == bt {
                                let j = choose|j: int| 0 <= j < k + 1 && m.supported_capabilities@[j] == bt;
                                if j < k {
                                    assert(prev.contains(bt));
                                    let a = choose|a: int| 0 <= a < prev.len() && prev[a] == bt;
                                    assert(needed@[a] == bt);
                                } else {
                                    assert(needed@[prev.len() as int] == bt);
                                }
                            }
                            if before.contains(bt) {
                                assert(prev.contains(bt));
                                let a = choose|a: int| 0 <= a < prev.len() && prev[a] == bt;
                                assert(needed@[a] == bt);
                            }
                        }
                    }
                    k += 1;
                }
                proof {
                    assert forall|bt: BindingType| #[trigger] needed@.contains(bt) <==> consumed_binding(bt, sel.take(i + 1), caps@) by {
                        let t = sel.take(i + 1);
                        assert(t[i as int] == selected@[i as int]@);
                        if consumed_binding(bt, t, caps@) {
                            let j = choose|j: int| 0 <= j < t.len() && caps@.contains_key(#[trigger] t[j]) && caps@[t[j]].supported_capabilities@.contains(bt);
                            if j < i {
                                assert(sel.take(i as int)[j] == t[j]);
                                assert(consumed_binding(bt, sel.take(i as int), caps@));
                            } else {
                                let q = choose|q: int| 0 <= q < m.supported_capabilities@.len() && m.supported_capabilities@[q] == bt;
                            }
                        }
                        if needed@.contains(bt) {
                            if before.contains(bt) {
                                let j = choose|j: int| 0 <= j < i && caps@.contains_key(#[trigger] sel.take(i as int)[j]) && caps@[sel.take(i as int)[j]].supported_capabilities@.contains(bt);
                                assert(sel.take(i as int)[j] == t[j]);
                            } else {
                                let q = choose|q: int| 0 <= q < k && m.supported_capabilities@[q] == bt;
                                assert(m.supported_capabilities@.contains(bt));
                                assert(caps@.contains_key(t[i as int]));
                            }
                        }
                    }
                }
            },
            None => {
                proof {
                    assert forall|bt: BindingType| #[trigger] needed@.contains(bt) <==> consumed_binding(bt, sel.take(i + 1), caps@) by {
                        let t = sel.take(i + 1);
                        assert(t[i as int] == selected@[i as int]@);
                        if consumed_binding(bt, t, caps@) {
                            let j = choose|j: int| 0 <= j < t.len() && caps@.contains_key(#[trigger] t[j]) && caps@[t[j]].supported_capabilities@.contains(bt);
                            assert(j < i);
                            assert(sel.take(i as int)[j] == t[j]);
                        }
                        if needed@.contains(bt) {
                            let j = choose|j: int| 0 <= j < i && caps@.contains_key(#[trigger] sel.take(i as int)[j]) && caps@[sel.take(i as int)[j]].supported_capabilities@.contains(bt);
                            assert(sel.take(i as int)[j] == t[j]);
                        }
                    }
                }
            },
        }
        i += 1;
    }
    assert(sel.take(i as int) =~= sel);
    needed
}


/// A launcher recommendation offered once the capability types `selected`
/// are chosen: any launcher when they need no binding surface; otherwise one
/// of an unknown type, or one that consumes a surface they need.
pub open spec fn launcher_offered(
    r: Recommendation,
    selected: Seq<Seq<char>>,
    caps: Map<Seq<char>, CapabilityMetadata>,
    launchers: Map<Seq<char>, LauncherMetadata>,
) -> bool {
    match r {
        Recommendation::Launcher { launcher_type: t, .. } => (forall|bt: BindingType|
            !#[trigger] needed_binding(bt, selected, caps)) || !launchers.contains_key(t@) || exists|k: int|
            0 <= k < launchers[t@].supported_capabilities@.len() && needed_binding(
                #[trigger] launchers[t@].supported_capabilities@[k],
                selected,
                caps,
            ),
        _ => false,
    }
}

/// A capability recommendation offered once the launcher types `selected`
/// are chosen: none without a launcher; otherwise one of an unknown type, or
/// one that fills a surface a chosen launcher consumes.
pub open spec fn capability_offered(
    r: Recommendation,
    selected: Seq<Seq<char>>,
    caps: Map<Seq<char>, CapabilityMetadata>,
    launchers: Map<Seq<char>, LauncherMetadata>,
) -> bool {
    match r {
        Recommendation::Capability { capability_type: t, .. } => selected.len() > 0 && (!caps.contains_key(t@)
            || exists|k: int|
            0 <= k < caps[t@].binding_types@.len() && consumed_binding(
                #[trigger] caps[t@].binding_types@[k],
                selected,
                launchers,
            )),
        _ => false,
    }
}

/// `r` recommends a selected model and lists `t` as its `j`-th provider able to run it.
pub open spec fn lists_runner(r: Recommendation, selected: Seq<Seq<char>>, j: int, t: Seq<char>) -> bool {
    match r {
        Recommendation::Model { model_id, can_run_by, .. } => selected.contains(model_id@) && 0 <= j
            < can_run_by@.len() && can_run_by@[j]@ == t,
        _ => false,
    }
}

/// Some model recommendation for a selected model lists `t` among the
/// providers that can run it.
pub open spec fn runs_selected(t: Seq<char>, recs: Seq<Recommendation>, selected: Seq<Seq<char>>) -> bool {
    exists|i: int, j: int| 0 <= i < recs.len() && #[trigger] lists_runner(recs[i], selected, j, t)
}

/// A provider recommendation offered once the models `selected` are chosen:
/// any provider when no model is chosen or nothing is known of which
/// provider runs them; otherwise one that runs a chosen model.
pub open spec fn provider_offered(r: Recommendation, recs: Seq<Recommendation>, selected: Seq<Seq<char>>) -> bool {
    match r {
        Recommendation::Provider { provider_type: t, .. } => selected.len() == 0 || (forall|u: Seq<char>|
            !#[trigger] runs_selected(u, recs, selected)) || runs_selected(t@, recs, selected),
        _ => false,
    }
}

/// A chosen capability type of `caps` has a dependency that catalog model `id` fills.
pub open spec fn model_required(
    id: Seq<char>,
    selected: Seq<Seq<char>>,
    caps: Map<Seq<char>, CapabilityMetadata>,
    catalog: Map<Seq<char>, crate::models::base::ModelMetadata>,
) -> bool {
    exists|i: int, k: int|
        0 <= i < selected.len() && caps.contains_key(selected[i]) && 0 <= k < caps[selected[i]].dependencies@.len()
            && #[trigger] fills_model(caps[selected[i]].dependencies@[k], id, catalog)
}

/// `d` is a dependency on a model, named or described.
pub open spec fn is_model_dependency(d: crate::capabilities::base::Dependency) -> bool {
    d is Model || d is ModelFor
}

/// Some chosen capability type of `caps` depends on a model.
pub open spec fn any_model_dependency(selected: Seq<Seq<char>>, caps: Map<Seq<char>, CapabilityMetadata>) -> bool {
    exists|i: int, k: int|
        0 <= i < selected.len() && caps.contains_key(selected[i]) && 0 <= k < caps[selected[i]].dependencies@.len()
            && #[trigger] is_model_dependency(caps[selected[i]].dependencies@[k])
}

/// `d` is a dependency on model `id`.
pub open spec fn names_model(d: crate::capabilities::base::Dependency, id: Seq<char>) -> bool {
    d matches crate::capabilities::base::Dependency::Model { id: m, .. } && m@ == id
}

/// Catalog model `id` fills dependency `d`: `d` names it, or asks for what it supports.
pub open spec fn fills_model(
    d: crate::capabilities::base::Dependency,
    id: Seq<char>,
    catalog: Map<Seq<char>, crate::models::base::ModelMetadata>,
) -> bool {
    ||| names_model(d, id)
    ||| (d matches crate::capabilities::base::Dependency::ModelFor { functions, .. } && catalog.contains_key(id)
        && crate::capabilities::base::admits(functions@, catalog[id]))
}

/// A model recommendation offered once the capability types `selected` are
/// chosen: any model when they depend on no model; otherwise one that fills
/// one of their model dependencies.
pub open spec fn model_offered(
    r: Recommendation,
    selected: Seq<Seq<char>>,
    caps: Map<Seq<char>, CapabilityMetadata>,
    catalog: Map<Seq<char>, crate::models::base::ModelMetadata>,
) -> bool {
    match r {
        Recommendation::Model { model_id, .. } => !any_model_dependency(selected, caps) || model_required(
            model_id@,
            selected,
            caps,
            catalog,
        ),
        _ => false,
    }
}

/// Whether some chosen capability type depends on a model.
fn any_model_dependency_exec(selected: &Vec<String>, caps: &Factory<CapabilityMetadata>) -> (b: bool)
    ensures
        b == any_model_dependency(string_views(selected@), caps@),
{
    let ghost sel = string_views(selected@);
    let mut i: usize = 0;
    while i < selected.len()
        invariant
            i <= selected@.len(),
            sel == string_views(selected@),
            forall|ii: int, k: int|
                0 <= ii < i && caps@.contains_key(sel[ii]) && 0 <= k < caps@[sel[ii]].dependencies@.len()
                    ==> !#[trigger] is_model_dependency(caps@[sel[ii]].dependencies@[k]),
        decreases selected@.len() - i,
    {
        match caps.get(selected[i].as_str()) {
            Some(meta) => {
                let mut k: usize = 0;
                while k < meta.dependencies.len()
                    invariant
                        i < selected@.len(),
                        k <= meta.dependencies@.len(),
                        sel == string_views(selected@),
                        caps@.contains_key(sel[i as int]) && caps@[sel[i as int]] == *meta,
                        forall|kk: int| 0 <= kk < k ==> !#[trigger] is_model_dependency(meta.dependencies@[kk]),
                    decreases meta.dependencies@.len() - k,
                {
                    match &meta.dependencies[k] {
                        crate::capabilities::base::Dependency::Model { .. } => {
                            assert(is_model_dependency(caps@[sel[i as int]].dependencies@[k as int]));
                            return true;
                        },
                        crate::capabilities::base::Dependency::ModelFor { .. } => {
                            assert(is_model_dependency(caps@[sel[i as int]].dependencies@[k as int]));
                            return true;
                        },
                        _ => {},
                    }
                    k += 1;
                }
            },
            None => {},
        }
        i += 1;
    }
    false
}

/// Whether catalog model `id` fills a model dependency of a chosen capability type.
fn model_required_exec(
    selected: &Vec<String>,
    caps: &Factory<CapabilityMetadata>,
    catalog: &Factory<crate::models::base::ModelMetadata>,
    id: &str,
) -> (b: bool)
    ensures
        b == model_required(id@, string_views(selected@), caps@, catalog@),
{
    let ghost sel = string_views(selected@);
    let mut i: usize = 0;
    while i < selected.len()
        invariant
            i <= selected@.len(),
            sel == string_views(selected@),
            forall|ii: int, k: int|
                0 <= ii < i && caps@.contains_key(sel[ii]) && 0 <= k < caps@[sel[ii]].dependencies@.len()
                    ==> !#[trigger] fills_model(caps@[sel[ii]].dependencies@[k], id@, catalog@),
        decreases selected@.len() - i,
    {
        match caps.get(selected[i].as_str()) {
            Some(meta) => {
                let mut k: usize = 0;
                while k < meta.dependencies.len()
                    invariant
                        i < selected@.len(),
                        k <= meta.dependencies@.len(),
                        sel == string_views(selected@),
                        caps@.contains_key(sel[i as int]) && caps@[sel[i as int]] == *meta,
                        forall|kk: int| 0 <= kk < k ==> !#[trigger] fills_model(meta.dependencies@[kk], id@, catalog@),
                    decreases meta.dependencies@.len() - k,
                {
                    let fills = match &meta.dependencies[k] {
                        crate::capabilities::base::Dependency::Model { id: m, .. } => crate::text::str_eq(m.as_str(), id),
                        crate::capabilities::base::Dependency::ModelFor { functions, .. } => match catalog.get(id) {
                            Some(md) => crate::capabilities::base::admits_exec(functions, md),
                            None => false,
                        },
                        _ => false,
                    };
                    if fills {
                        assert(fills_model(caps@[sel[i as int]].dependencies@[k as int], id@, catalog@));
                        return true;
                    }
                    assert(!fills_model(meta.dependencies@[k as int], id@, catalog@));
                    k += 1;
                }
            },
            None => {},
        }
        i += 1;
    }
    false
}

/// The ids a chosen set of recommendations gives: the capability types, the
/// model ids, and the types of the healthy providers, in order.
pub open spec fn picked_ids(rs: Seq<Recommendation>) -> Seq<Seq<char>>
    decreases rs.len(),
{
    if rs.len() == 0 {
        Seq::empty()
    } else {
        let rest = picked_ids(rs.drop_last());
        match rs.last() {
            Recommendation::Capability { capability_type, .. } => rest.push(capability_type@),
            Recommendation::Model { model_id, .. } => rest.push(model_id@),
            Recommendation::Provider { provider_type, health_healthy, .. } => if health_healthy {
                rest.push(provider_type@)
            } else {
                rest
            },
            Recommendation::Launcher { .. } => rest,
        }
    }
}

/// Recommendation `r` is a provider recommendation of type `t` whose health
/// check passed.
pub open spec fn healthy_provider(r: Recommendation, t: Seq<char>) -> bool {
    r matches Recommendation::Provider { provider_type, health_healthy, .. } && health_healthy && provider_type@ == t
}

/// Recommendation `r` gives the id `id` to a selection: a capability of that
/// type, a model of that id, or a healthy provider of that type.
pub open spec fn gives_id(r: Recommendation, id: Seq<char>) -> bool {
    match r {
        Recommendation::Capability { capability_type, .. } => capability_type@ == id,
        Recommendation::Model { model_id, .. } => model_id@ == id,
        Recommendation::Provider { .. } => healthy_provider(r, id),
        Recommendation::Launcher { .. } => false,
    }
}

/// Some recommendation of `rs` gives the id `id`.
pub open spec fn given_by(rs: Seq<Recommendation>, id: Seq<char>) -> bool {
    exists|j: int| 0 <= j < rs.len() && #[trigger] gives_id(rs[j], id)
}

/// Some recommendation of `rs` is a healthy provider of type `t`.
pub open spec fn healthy_in(rs: Seq<Recommendation>, t: Seq<char>) -> bool {
    exists|j: int| 0 <= j < rs.len() && #[trigger] healthy_provider(rs[j], t)
}

/// Every id picked from recommendations comes from one of them: a capability
/// or model of that id, or a provider of that type that is healthy.
pub proof fn law_picked_ids_come_from_recommendations(rs: Seq<Recommendation>)
    ensures
        forall|i: int| 0 <= i < picked_ids(rs).len() ==> #[trigger] given_by(rs, picked_ids(rs)[i]),
    decreases rs.len(),
{
    if rs.len() > 0 {
        let init = rs.drop_last();
        law_picked_ids_come_from_recommendations(init);
        let prev = picked_ids(init);
        let last = rs.last();
        assert(rs[rs.len() - 1] == last);
        assert forall|i: int| 0 <= i < picked_ids(rs).len() implies #[trigger] given_by(rs, picked_ids(rs)[i]) by {
            if i < prev.len() {
                assert(given_by(init, prev[i]));
                let j = choose|j: int| 0 <= j < init.len() && #[trigger] gives_id(init[j], prev[i]);
                assert(rs[j] == init[j]);
                match last {
                    Recommendation::Capability { capability_type, .. } => {
                        assert(picked_ids(rs) == prev.push(capability_type@));
                    },
                    Recommendation::Model { model_id, .. } => {
                        assert(picked_ids(rs) == prev.push(model_id@));
                    },
                    Recommendation::Provider { provider_type, health_healthy, .. } => {
                        if health_healthy {
                            assert(picked_ids(rs) == prev.push(provider_type@));
                        } else {
                            assert(picked_ids(rs) == prev);
                        }
                    },
                    Recommendation::Launcher { .. } => {
                        assert(picked_ids(rs) == prev);
                    },
                }
                assert(picked_ids(rs)[i] == prev[i]);
                assert(gives_id(rs[j], picked_ids(rs)[i]));
            } else {
                match last {
                    Recommendation::Capability { capability_type, .. } => {
                        assert(picked_ids(rs) == prev.push(capability_type@));
                        assert(gives_id(rs[rs.len() - 1], picked_ids(rs)[i]));
                    },
                    Recommendation::Model { model_id, .. } => {
                        assert(picked_ids(rs) == prev.push(model_id@));
                        assert(gives_id(rs[rs.len() - 1], picked_ids(rs)[i]));
                    },
                    Recommendation::Provider { provider_type, health_healthy, .. } => {
                        if health_healthy {
                            assert(picked_ids(rs) == prev.push(provider_type@));
                            assert(gives_id(rs[rs.len() - 1], picked_ids(rs)[i]));
                        } else {
                            assert(picked_ids(rs) == prev);
                        }
                    },
                    Recommendation::Launcher { .. } => {
                        assert(picked_ids(rs) == prev);
                    },
                }
            }
        }
    }
}

/// The providers automatic setup selects once the models `models` are
/// chosen: the types of the healthy provider recommendations offered for them.
pub open spec fn auto_providers(recs: Seq<Recommendation>, models: Seq<Seq<char>>) -> Seq<Seq<char>> {
    picked_ids(recs.filter(|x: Recommendation| provider_offered(x, recs, models)))
}

/// Automatic setup configures only healthy providers: every provider it
/// selects is the type of a provider recommendation whose health check passed.
pub proof fn law_auto_selected_providers_are_healthy(recs: Seq<Recommendation>, models: Seq<Seq<char>>)
    ensures
        forall|i: int|
            0 <= i < auto_providers(recs, models).len() ==> #[trigger] healthy_in(recs, auto_providers(recs, models)[i]),
{
    broadcast use vstd::seq_lib::group_filter_ensures;
    let f = recs.filter(|x: Recommendation| provider_offered(x, recs, models));
    assert(auto_providers(recs, models) == picked_ids(f));
    law_picked_ids_come_from_recommendations(f);
    assert forall|i: int| 0 <= i < picked_ids(f).len() implies #[trigger] healthy_in(recs, picked_ids(f)[i]) by {
        assert(given_by(f, picked_ids(f)[i]));
        let k = choose|k: int| 0 <= k < f.len() && #[trigger] gives_id(f[k], picked_ids(f)[i]);
        recs.lemma_filter_pred(|x: Recommendation| provider_offered(x, recs, models), k);
        assert(provider_offered(f[k], recs, models));
        assert(f[k] is Provider);
        assert(f.contains(f[k]));
        recs.lemma_filter_contains_rev(|x: Recommendation| provider_offered(x, recs, models), f[k]);
        let j = choose|j: int| 0 <= j < recs.len() && recs[j] == f[k];
        assert(healthy_provider(recs[j], picked_ids(f)[i]));
    }
}

/// The launcher types whose binary was found, in order.
pub open spec fn found_launchers(rs: Seq<Recommendation>) -> Seq<Seq<char>>
    decreases rs.len(),
{
    if rs.len() == 0 {
        Seq::empty()
    } else {
        let rest = found_launchers(rs.drop_last());
        match rs.last() {
            Recommendation::Launcher { launcher_type, binary_path: Some(_), .. } => rest.push(launcher_type@),
            _ => rest,
        }
    }
}

fn picked_exec(rs: &Vec<&Recommendation>) -> (r: Vec<String>)
    ensures
        string_views(r@) == picked_ids(deref_seq(rs@)),
{
    let ghost d = deref_seq(rs@);
    let mut r: Vec<String> = Vec::new();
    let mut i: usize = 0;
    while i < rs.len()
        invariant
            i <= rs@.len(),
            d == deref_seq(rs@),
            string_views(r@) == picked_ids(d.take(i as int)),
        decreases rs@.len() - i,
    {
        proof {
            assert(d.take(i + 1).drop_last() =~= d.take(i as int));
            assert(d.take(i + 1).last() == *rs@[i as int]);
        }
        let ghost before = string_views(r@);
        match rs[i] {
            Recommendation::Capability { capability_type, .. } => {
                r.push(crate::text::owned(capability_type.as_str()));
            },
            Recommendation::Model { model_id, .. } => {
                r.push(crate::text::owned(model_id.as_str()));
            },
            Recommendation::Provider { provider_type, health_healthy, .. } => {
                if *health_healthy {
                    r.push(crate::text::owned(provider_type.as_str()));
                }
            },
            Recommendation::Launcher { .. } => {},
        }
        assert(string_views(r@) =~= picked_ids(d.take(i + 1)));
        i += 1;
    }
    assert(d.take(i as int) =~= d);
    r
}

fn found_exec(rs: &Vec<Recommendation>) -> (r: Vec<String>)
    ensures
        string_views(r@) == found_launchers(rs@),
{
    let mut r: Vec<String> = Vec::new();
    let mut i: usize = 0;
    while i < rs.len()
        invariant
            i <= rs@.len(),
            string_views(r@) == found_launchers(rs@.take(i as int)),
        decreases rs@.len() - i,
    {
        proof {
            assert(rs@.take(i + 1).drop_last() =~= rs@.take(i as int));
            assert(rs@.take(i + 1).last() == rs@[i as int]);
        }
        match &rs[i] {
            Recommendation::Launcher { launcher_type, binary_path: Some(_), .. } => {
                r.push(crate::text::owned(launcher_type.as_str()));
            },
            _ => {},
        }
        assert(string_views(r@) =~= found_launchers(rs@.take(i + 1)));
        i += 1;
    }
    assert(rs@.take(i as int) =~= rs@);
    r
}

/// What automatic setup selects.
pub struct Selection {
    pub launchers: Vec<String>,
    pub capabilities: Vec<String>,
    pub models: Vec<String>,
    pub providers: Vec<String>,
}

/// What automatic setup selects from the recommendations: the launchers
/// whose binary was found; the capabilities those launchers can bind; the
/// models that fill those capabilities' model dependencies (any, when they
/// depend on no model); and the healthy providers that can run those models.
pub fn auto_selection(
    recs: &Vec<Recommendation>,
    caps: &Factory<CapabilityMetadata>,
    launchers: &Factory<LauncherMetadata>,
    catalog: &Factory<crate::models::base::ModelMetadata>,
) -> (s: Selection)
    ensures
        string_views(s.launchers@) == found_launchers(recs@),
        string_views(s.capabilities@) == picked_ids(
            recs@.filter(|x: Recommendation| capability_offered(x, found_launchers(recs@), caps@, launchers@)),
        ),
        string_views(s.models@) == picked_ids(
            recs@.filter(|x: Recommendation| model_offered(x, string_views(s.capabilities@), caps@, catalog@)),
        ),
        string_views(s.providers@) == picked_ids(
            recs@.filter(|x: Recommendation| provider_offered(x, recs@, string_views(s.models@))),
        ),
        forall|i: int| 0 <= i < s.providers@.len() ==> #[trigger] healthy_in(recs@, s.providers@[i]@),
{
    let ls = found_exec(recs);
    let cs = picked_exec(&Revaluator::for_capabilities(recs, &ls, caps, launchers));
    let ms = picked_exec(&Revaluator::for_models(recs, &cs, caps, catalog));
    let ps = picked_exec(&Revaluator::for_providers(recs, &ms));
    proof {
        law_auto_selected_providers_are_healthy(recs@, string_views(ms@));
        assert(string_views(ps@) == auto_providers(recs@, string_views(ms@)));
        assert forall|i: int| 0 <= i < ps@.len() implies #[trigger] healthy_in(recs@, ps@[i]@) by {
            assert(string_views(ps@)[i] == ps@[i]@);
            assert(auto_providers(recs@, string_views(ms@))[i] == ps@[i]@);
            assert(healthy_in(recs@, auto_providers(recs@, string_views(ms@))[i]));
        }
    }
    Selection { launchers: ls, capabilities: cs, models: ms, providers: ps }
}

/// The narrowing of each wizard section by the earlier choices.
pub struct Revaluator;

impl Revaluator {
    /// The launcher recommendations that suit the chosen capability types.
    pub fn for_launchers<'a>(
        recs: &'a Vec<Recommendation>,
        selected_cap_types: &Vec<String>,
        caps: &Factory<CapabilityMetadata>,
        launchers: &Factory<LauncherMetadata>,
    ) -> (r: Vec<&'a Recommendation>)
        ensures
            deref_seq(r@) == recs@.filter(
                |x: Recommendation| launcher_offered(x, string_views(selected_cap_types@), caps@, launchers@),
            ),
    {
        let ghost sel = string_views(selected_cap_types@);
        let ghost keep = |x: Recommendation| launcher_offered(x, sel, caps@, launchers@);
        let needed = needed_bindings(selected_cap_types, caps);
        let none_needed = needed.len() == 0;
        proof {
            if none_needed {
                assert forall|bt: BindingType| !#[trigger] needed_binding(bt, sel, caps@) by {
                    assert(!needed@.contains(bt));
                }
            } else {
                assert(needed@.contains(needed@[0]));
                assert(needed_binding(needed@[0], sel, caps@));
            }
        }
        let mut mask: Vec<bool> = Vec::new();
        let mut i: usize = 0;
        while i < recs.len()
            invariant
                i <= recs@.len(),
                mask@.len() == i,
                keep == (|x: Recommendation| launcher_offered(x, sel, caps@, launchers@)),
                sel == string_views(selected_cap_types@),
                forall|bt: BindingType| #[trigger] needed@.contains(bt) <==> needed_binding(bt, sel, caps@),
                none_needed == forall|bt: BindingType| !#[trigger] needed_binding(bt, sel, caps@),
                forall|j: int| 0 <= j < i ==> mask@[j] == keep(#[trigger] recs@[j]),
            decreases recs@.len() - i,
        {
            let m = match &recs[i] {
                Recommendation::Launcher { launcher_type, .. } => {
                    if none_needed {
                        true
                    } else {
                        match launchers.get(launcher_type.as_str()) {
                            None => true,
                            Some(meta) => {
                                let b = any_binding_in(&meta.supported_capabilities, &needed);
                                proof {
                                    if b {
                                        let k = choose|k: int| 0 <= k < meta.supported_capabilities@.len() && needed@.contains(#[trigger] meta.supported_capabilities@[k]);
                                        assert(needed_binding(meta.supported_capabilities@[k], sel, caps@));
                                    } else {
                                        assert forall|k: int| 0 <= k < meta.supported_capabilities@.len() implies !needed_binding(#[trigger] meta.supported_capabilities@[k], sel, caps@) by {
                                            assert(!needed@.contains(meta.supported_capabilities@[k]));
                                        }
                                    }
                                }
                                b
                            },
                        }
                    }
                },
                _ => false,
            };
            mask.push(m);
            i += 1;
        }
        keep_where(recs, &mask, Ghost(keep))
    }

    /// The model recommendations that fill a model dependency of the chosen
    /// capability types; every one when they depend on no model.
    pub fn for_models<'a>(
        recs: &'a Vec<Recommendation>,
        selected_cap_types: &Vec<String>,
        caps: &Factory<CapabilityMetadata>,
        catalog: &Factory<crate::models::base::ModelMetadata>,
    ) -> (r: Vec<&'a Recommendation>)
        ensures
            deref_seq(r@) == recs@.filter(
                |x: Recommendation| model_offered(x, string_views(selected_cap_types@), caps@, catalog@),
            ),
    {
        let ghost sel = string_views(selected_cap_types@);
        let ghost keep = |x: Recommendation| model_offered(x, sel, caps@, catalog@);
        let any_dep = any_model_dependency_exec(selected_cap_types, caps);
        let mut mask: Vec<bool> = Vec::new();
        let mut i: usize = 0;
        while i < recs.len()
            invariant
                i <= recs@.len(),
                mask@.len() == i,
                keep == (|x: Recommendation| model_offered(x, sel, caps@, catalog@)),
                sel == string_views(selected_cap_types@),
                any_dep == any_model_dependency(sel, caps@),
                forall|j: int| 0 <= j < i ==> mask@[j] == keep(#[trigger] recs@[j]),
            decreases recs@.len() - i,
        {
            let m = match &recs[i] {
                Recommendation::Model { model_id, .. } => !any_dep || model_required_exec(
                    selected_cap_types,
                    caps,
                    catalog,
                    model_id.as_str(),
                ),
                _ => false,
            };
            mask.push(m);
            i += 1;
        }
        keep_where(recs, &mask, Ghost(keep))
    }

    /// The provider recommendations that can run the chosen models.
    pub fn for_providers<'a>(recs: &'a Vec<Recommendation>, selected_model_ids: &Vec<String>) -> (r: Vec<
        &'a Recommendation,
    >)
        ensures
            deref_seq(r@) == recs@.filter(
                |x: Recommendation| provider_offered(x, recs@, string_views(selected_model_ids@)),
            ),
    {
        let ghost sel = string_views(selected_model_ids@);
        let ghost keep = |x: Recommendation| provider_offered(x, recs@, sel);
        let runners = runners_of_selected(recs, selected_model_ids);
        let none_known = runners.len() == 0;
        proof {
            if none_known {
                assert forall|u: Seq<char>| !#[trigger] runs_selected(u, recs@, sel) by {
                    assert(!string_views(runners@).contains(u));
                }
            } else {
                assert(string_views(runners@).contains(string_views(runners@)[0]));
                assert(runs_selected(string_views(runners@)[0], recs@, sel));
            }
        }
        let no_selection = selected_model_ids.len() == 0;
        let mut mask: Vec<bool> = Vec::new();
        let mut i: usize = 0;
        while i < recs.len()
            invariant
                i <= recs@.len(),
                mask@.len() == i,
                keep == (|x: Recommendation| provider_offered(x, recs@, sel)),
                sel == string_views(selected_model_ids@),
                no_selection == (sel.len() == 0),
                forall|t: Seq<char>| #[trigger] string_views(runners@).contains(t) <==> runs_selected(t, recs@, sel),
                none_known == forall|u: Seq<char>| !#[trigger] runs_selected(u, recs@, sel),
                forall|j: int| 0 <= j < i ==> mask@[j] == keep(#[trigger] recs@[j]),
            decreases recs@.len() - i,
        {
            let m = match &recs[i] {
                Recommendation::Provider { provider_type, .. } => no_selection || none_known
                    || crate::text::contains_string(&runners, provider_type.as_str()),
                _ => false,
            };
            mask.push(m);
            i += 1;
        }
        keep_where(recs, &mask, Ghost(keep))
    }

    /// The capability recommendations that the chosen launcher types can bind.
    pub fn for_capabilities<'a>(
        recs: &'a Vec<Recommendation>,
        selected_launcher_types: &Vec<String>,
        caps: &Factory<CapabilityMetadata>,
        launchers: &Factory<LauncherMetadata>,
    ) -> (r: Vec<&'a Recommendation>)
        ensures
            deref_seq(r@) == recs@.filter(
                |x: Recommendation| capability_offered(x, string_views(selected_launcher_types@), caps@, launchers@),
            ),
    {
        let ghost sel = string_views(selected_launcher_types@);
        let ghost keep = |x: Recommendation| capability_offered(x, sel, caps@, launchers@);
        let consumed = consumed_bindings(selected_launcher_types, launchers);
        let any_selected = selected_launcher_types.len() > 0;
        let mut mask: Vec<bool> = Vec::new();
        let mut i: usize = 0;
        while i < recs.len()
            invariant
                i <= recs@.len(),
                mask@.len() == i,
                keep == (|x: Recommendation| capability_offered(x, sel, caps@, launchers@)),
                sel == string_views(selected_launcher_types@),
                any_selected == (sel.len() > 0),
                forall|bt: BindingType| #[trigger] consumed@.contains(bt) <==> consumed_binding(bt, sel, launchers@),
                forall|j: int| 0 <= j < i ==> mask@[j] == keep(#[trigger] recs@[j]),
            decreases recs@.len() - i,
        {
            let m = match &recs[i] {
                Recommendation::Capability { capability_type, .. } => {
                    if !any_selected {
                        false
                    } else {
                        match caps.get(capability_type.as_str()) {
                            None => true,
                            Some(meta) => {
                                let b = any_binding_in(&meta.binding_types, &consumed);
                                proof {
                                    if b {
                                        let k = choose|k: int| 0 <= k < meta.binding_types@.len() && consumed@.contains(#[trigger] meta.binding_types@[k]);
                                        assert(consumed_binding(meta.binding_types@[k], sel, launchers@));
                                    } else {
                                        assert forall|k: int| 0 <= k < meta.binding_types@.len() implies !consumed_binding(#[trigger] meta.binding_types@[k], sel, launchers@) by {
                                            assert(!consumed@.contains(meta.binding_types@[k]));
                                        }
                                    }
                                }
                                b
                            },
                        }
                    }
                },
                _ => false,
            };
            mask.push(m);
            i += 1;
        }
        keep_where(recs, &mask, Ghost(keep))
    }
}

/// The providers listed as able to run a selected model, by the model
/// recommendations for selected models.
fn runners_of_selected(recs: &Vec<Recommendation>, selected: &Vec<String>) -> (runners: Vec<String>)
    ensures
        forall|t: Seq<char>| #[trigger] string_views(runners@).contains(t) <==> runs_selected(t, recs@, string_views(selected@)),
{
    let ghost sel = string_views(selected@);
    let mut runners: Vec<String> = Vec::new();
    let mut i: usize = 0;
    while i < recs.len()
        invariant
            i <= recs@.len(),
            sel == string_views(selected@),
            forall|t: Seq<char>| #[trigger] string_views(runners@).contains(t) <==> exists|a: int, j: int| 0 <= a < i && #[trigger] lists_runner(recs@[a], sel, j, t),
        decreases recs@.len() - i,
    {
        let ghost before = string_views(runners@);
        match &recs[i] {
            Recommendation::Model { model_id, can_run_by, .. } => {
                let chosen = crate::text::contains_string(selected, model_id.as_str());
                if chosen {
                    let mut k: usize = 0;
                    while k < can_run_by.len()
                        invariant
                            k <= can_run_by@.len(),
                            forall|t: Seq<char>| #[trigger] string_views(runners@).contains(t) <==> (before.contains(t) || exists|j: int| 0 <= j < k && can_run_by@[j]@ == t),
                        decreases can_run_by@.len() - k,
                    {
                        let ghost prev = string_views(runners@);
                        runners.push(crate::text::owned(can_run_by[k].as_str()));
                        proof {
                            let now = string_views(runners@);
                            assert(now =~= prev.push(can_run_by@[k as int]@));
                            assert forall|t: Seq<char>| #[trigger] now.contains(t) <==> (before.contains(t) || exists|j: int| 0 <= j < k + 1 && can_run_by@[j]@ == t) by {
                                if now.contains(t) {
                                    let a = choose|a: int| 0 <= a < now.len() && now[a] == t;
                                    if a < prev.len() {
                                        assert(prev[a] == t);
                                        assert(prev.contains(t));
                                    }
                                }
                                if exists|j: int| 0 <= j < k + 1 && can_run_by@[j]@ == t {
                                    let j = choose|j: int| 0 <= j < k + 1 && can_run_by@[j]@ == t;
                                    if j < k {
                                        assert(prev.contains(t));
                                        let a = choose|a: int| 0 <= a < prev.len() && prev[a] == t;
                                        assert(now[a] == t);
                                    } else {
                                        assert(now[prev.len() as int] == t);
                                    }
                                }
                                if before.contains(t) {
                                    assert(prev.contains(t));
                                    let a = choose|a: int| 0 <= a < prev.len() && prev[a] == t;
                                    assert(now[a] == t);
                                }
                            }
                        }
                        k += 1;
                    }
                }
                proof {
                    let now = string_views(runners@);
                    assert forall|t: Seq<char>| #[trigger] now.contains(t) <==> exists|a: int, j: int| 0 <= a < i + 1 && #[trigger] lists_runner(recs@[a], sel, j, t) by {
                        if now.contains(t) && !before.contains(t) {
                            let j = choose|j: int| 0 <= j < can_run_by@.len() && can_run_by@[j]@ == t;
                            assert(lists_runner(recs@[i as int], sel, j, t));
                        }
                        if exists|a: int, j: int| 0 <= a < i + 1 && #[trigger] lists_runner(recs@[a], sel, j, t) {
                            let (a, j) = choose|a: int, j: int| 0 <= a < i + 1 && #[trigger] lists_runner(recs@[a], sel, j, t);
                            if a < i {
                                assert(before.contains(t));
                            } else {
                                assert(chosen);
                            }
                        }
                    }
                }
            },
            _ => {
                proof {
                    let now = string_views(runners@);
                    assert forall|t: Seq<char>| #[trigger] now.contains(t) <==> exists|a: int, j: int| 0 <= a < i + 1 && #[trigger] lists_runner(recs@[a], sel, j, t) by {
                        if exists|a: int, j: int| 0 <= a < i + 1 && #[trigger] lists_runner(recs@[a], sel, j, t) {
                            let (a, j) = choose|a: int, j: int| 0 <= a < i + 1 && #[trigger] lists_runner(recs@[a], sel, j, t);
                            if a < i {
                                assert(before.contains(t));
                            }
                        }
                    }
                }
            },
        }
        i += 1;
    }
    assert forall|t: Seq<char>| #[trigger] string_views(runners@).contains(t) <==> runs_selected(t, recs@, sel) by {
    }
    runners
}

} // verus!
