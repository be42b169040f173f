//! Catalogs of providers, capabilities and models, and the name-keyed
//! factory they are registered in.
pub mod capabilities;
pub mod models;
pub mod providers;
pub mod secret;

pub use capabilities::CapabilityDefinition;
pub use capabilities::CapabilityRegistry;
pub use providers::ProviderDefinition;
pub use providers::ProviderRegistry;

use vstd::prelude::*;

use crate::strmap::lists_map;
use crate::strmap::StrMap;
use crate::text::contains_seq;
use crate::text::deref_seq;
use crate::text::join2;
use crate::text::lowercase;
use crate::text::str_contains;
use crate::text::str_eq;
use crate::text::to_lowercase;

verus! {

broadcast use crate::text::group_views;

/*-- catalog entries ------------------------------------------------------------*/

/// An entry of a catalog: found by its id, searched through its text fields.
pub trait CatalogEntry: Sized {
    /// The id the entry is looked up by.
    spec fn key_view(&self) -> Seq<char>;

    /// The text fields a search looks into.
    spec fn search_fields(&self) -> Seq<Seq<char>>;

    /// The id the entry is looked up by.
    fn key(&self) -> (k: &str)
        ensures
            k@ == self.key_view(),
    ;

    /// The text fields a search looks into.
    fn fields(&self) -> (v: Vec<&str>)
        ensures
            v@.len() == self.search_fields().len(),
            forall|i: int| 0 <= i < v@.len() ==> #[trigger] v@[i]@ == self.search_fields()[i],
    ;
}

/// Some field of `e` contains `query`, both lower-cased.
pub open spec fn matches_query<T: CatalogEntry>(e: T, query: Seq<char>) -> bool {
    exists|i: int|
        0 <= i < e.search_fields().len() && #[trigger] contains_seq(
            lowercase(e.search_fields()[i]),
            lowercase(query),
        )
}

/// Whether some field of `e` contains `query`, both lower-cased.
pub fn entry_matches<T: CatalogEntry>(e: &T, query_lower: &str, query: &str) -> (b: bool)
    requires
        query_lower@ == lowercase(query@),
    ensures
        b == matches_query(*e, query@),
{
    let fields = e.fields();
    let mut i: usize = 0;
    while i < fields.len()
        invariant
            i <= fields@.len(),
            query_lower@ == lowercase(query@),
            fields@.len() == e.search_fields().len(),
            forall|k: int| 0 <= k < fields@.len() ==> #[trigger] fields@[k]@ == e.search_fields()[k],
            forall|k: int|
                0 <= k < i ==> !#[trigger] contains_seq(
                    lowercase(e.search_fields()[k]),
                    lowercase(query@),
                ),
        decreases fields@.len() - i,
    {
        let f = to_lowercase(fields[i]);
        if str_contains(f.as_str(), query_lower) {
            return true;
        }
        i += 1;
    }
    false
}

/// `items[i]` is the first entry of `items` with id `id`.
pub open spec fn is_first_with_key<T: CatalogEntry>(items: Seq<T>, id: Seq<char>, i: int) -> bool {
    &&& 0 <= i < items.len()
    &&& items[i].key_view() == id
    &&& forall|j: int| 0 <= j < i ==> #[trigger] items[j].key_view() != id
}

/// Some entry of `items` has id `id`.
pub open spec fn has_key<T: CatalogEntry>(items: Seq<T>, id: Seq<char>) -> bool {
    exists|i: int| 0 <= i < items.len() && #[trigger] items[i].key_view() == id
}

/// The first entry of `items` whose id is `id`.
pub fn find_entry<'a, T: CatalogEntry>(items: &'a Vec<T>, id: &str) -> (r: Option<&'a T>)
    ensures
        match r {
            Some(e) => exists|i: int| is_first_with_key(items@, id@, i) && items@[i] == *e,
            None => !has_key(items@, id@),
        },
{
    let mut i: usize = 0;
    while i < items.len()
        invariant
            i <= items@.len(),
            forall|j: int| 0 <= j < i ==> #[trigger] items@[j].key_view() != id@,
        decreases items@.len() - i,
    {
        if str_eq(items[i].key(), id) {
            assert(is_first_with_key(items@, id@, i as int));
            return Some(&items[i]);
        }
        i += 1;
    }
    None
}

/// The entries of `items` that match `query`, in catalog order.
pub open spec fn matching_entries<T: CatalogEntry>(items: Seq<T>, query: Seq<char>) -> Seq<T>
    decreases items.len(),
{
    if items.len() == 0 {
        Seq::empty()
    } else {
        let rest = matching_entries(items.drop_last(), query);
        if matches_query(items.last(), query) {
            rest.push(items.last())
        } else {
            rest
        }
    }
}

/// References to the entries of `items` that match `query`, in catalog order.
pub fn search_entries<'a, T: CatalogEntry>(items: &'a Vec<T>, query: &str) -> (r: Vec<&'a T>)
    ensures
        deref_seq(r@) == matching_entries(items@, query@),
{
    let query_lower = to_lowercase(query);
    let mut r: Vec<&'a T> = Vec::new();
    let mut i: usize = 0;
    while i < items.len()
        invariant
            i <= items@.len(),
            query_lower@ == lowercase(query@),
            deref_seq(r@) == matching_entries(items@.take(i as int), query@),
        decreases items@.len() - i,
    {
        let ghost before = r@;
        if entry_matches(&items[i], query_lower.as_str(), query) {
            r.push(&items[i]);
            assert(deref_seq(r@) =~= deref_seq(before).push(items@[i as int]));
        } else {
            assert(deref_seq(r@) =~= deref_seq(before));
        }
        proof {
            let t = items@.take(i + 1);
            assert(t.drop_last() =~= items@.take(i as int));
            assert(t.last() == items@[i as int]);
        }
        i += 1;
    }
    assert(items@.take(i as int) =~= items@);
    r
}

/// References to every entry of `items`, in catalog order.
pub fn list_entries<'a, T>(items: &'a Vec<T>) -> (r: Vec<&'a T>)
    ensures
        deref_seq(r@) == items@,
{
    let mut r: Vec<&'a T> = Vec::new();
    let mut i: usize = 0;
    while i < items.len()
        invariant
            i <= items@.len(),
            deref_seq(r@) == items@.take(i as int),
            r@.len() == i,
        decreases items@.len() - i,
    {
        let ghost before = r@;
        let x = &items[i];
        r.push(x);
        proof {
            assert forall|k: int| 0 <= k < i implies #[trigger] deref_seq(r@)[k] == items@[k] by {
                assert(deref_seq(before)[k] == items@.take(i as int)[k]);
            }
        }
        i += 1;
        assert(deref_seq(r@) =~= items@.take(i as int));
    }
    assert(items@.take(i as int) =~= items@);
    r
}

/// A catalog: list every entry, look one up by id, search by text.
pub trait Registry<T> {
    fn list(&self) -> Vec<&T>;

    fn get(&self, id: &str) -> Option<&T>;

    fn search(&self, query: &str) -> Vec<&T>;
}

/*-- factory ----------------------------------------------------------------------*/

/// Implementations registered under a name, each described by metadata `M`.
pub struct Factory<M> {
    registry: StrMap<M>,
}

impl<M> View for Factory<M> {
    type V = Map<Seq<char>, M>;

    closed spec fn view(&self) -> Map<Seq<char>, M> {
        self.registry@
    }
}

impl<M> Factory<M> {
    /// An empty factory.
    pub fn new() -> (f: Self)
        ensures
            f@ == Map::<Seq<char>, M>::empty(),
    {
        Factory { registry: StrMap::new() }
    }

    /// Registers an implementation, described by `metadata`, under `name`.
    pub fn register(&mut self, name: &str, metadata: M)
        ensures
            final(self)@ == old(self)@.insert(name@, metadata),
    {
        self.registry.insert(name.to_string(), metadata);
    }

    /// The metadata registered under `name`.
    pub fn get(&self, name: &str) -> (r: Option<&M>)
        ensures
            match r {
                Some(m) => self@.contains_key(name@) && self@[name@] == *m,
                None => !self@.contains_key(name@),
            },
    {
        self.registry.get(name)
    }

    /// The registration to construct `name` from, or the message an unknown name gets.
    pub fn construct(&self, name: &str) -> (r: Result<&M, String>)
        ensures
            match r {
                Ok(m) => self@.contains_key(name@) && self@[name@] == *m,
                Err(e) => !self@.contains_key(name@) && e@ == "Unknown instance type: "@ + name@,
            },
    {
        match self.registry.get(name) {
            Some(m) => Ok(m),
            None => Err(join2("Unknown instance type: ", name)),
        }
    }

    /// Every registration, each name once.
    pub fn list(&self) -> (r: &Vec<(String, M)>)
        ensures
            lists_map(r@, self@),
    {
        self.registry.pairs()
    }
}

impl<M> Default for Factory<M> {
    fn default() -> (f: Self)
        ensures
            f@ == Map::<Seq<char>, M>::empty(),
    {
        Factory::new()
    }
}

} // verus!
