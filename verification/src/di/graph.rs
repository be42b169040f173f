//! Dependency graphs between capabilities: cycle detection, resolution order
//! and transitive dependencies.
//!
//! A capability depends on another through a `Dependency::Capability` entry.
//! The graph's nodes are capability ids; the edges of a node are the
//! capability dependencies of the first catalog entry with that id, in order.
use vstd::prelude::*;

use crate::capabilities::base::Dependency;
use crate::registry::capabilities::CapabilityDefinition;
use crate::registry::capabilities::CapabilityRegistry;
use crate::registry::find_entry;
use crate::registry::CatalogEntry;
use crate::registry::has_key;
use crate::registry::is_first_with_key;
use crate::text::contains_string;
use crate::text::position_of;
use crate::text::string_views;

verus! {

broadcast use crate::text::group_views;

/*-- the graph, as mathematics ------------------------------------------------*/

/// Ids of the capability dependencies among `deps`, in order.
pub open spec fn capability_dep_ids(deps: Seq<Dependency>) -> Seq<Seq<char>>
    decreases deps.len(),
{
    if deps.len() == 0 {
        Seq::empty()
    } else {
        let rest = capability_dep_ids(deps.drop_last());
        match deps.last() {
            Dependency::Capability { id, .. } => rest.push(id@),
            _ => rest,
        }
    }
}

/// Index of the first entry of `c` with id `id`.
pub open spec fn first_index(c: Seq<CapabilityDefinition>, id: Seq<char>) -> int {
    choose|i: int| is_first_with_key(c, id, i)
}

/// The capabilities `id` depends on directly; none for an unknown id.
pub open spec fn successors(c: Seq<CapabilityDefinition>, id: Seq<char>) -> Seq<Seq<char>> {
    if has_key(c, id) {
        capability_dep_ids(c[first_index(c, id)].dependencies@)
    } else {
        Seq::empty()
    }
}

/// Capability `u` depends directly on capability `v`.
pub open spec fn edge(c: Seq<CapabilityDefinition>, u: Seq<char>, v: Seq<char>) -> bool {
    successors(c, u).contains(v)
}

/// Each id of `p` depends directly on the next one.
pub open spec fn is_chain(c: Seq<CapabilityDefinition>, p: Seq<Seq<char>>) -> bool {
    forall|j: int| 0 <= j < p.len() - 1 ==> #[trigger] edge(c, p[j], p[j + 1])
}

/// `p` is a cycle: a chain whose last id depends on its first.
pub open spec fn is_cycle(c: Seq<CapabilityDefinition>, p: Seq<Seq<char>>) -> bool {
    p.len() > 0 && is_chain(c, p) && edge(c, p.last(), p[0])
}

/// `v` is `root` or can be reached from it along dependencies.
pub open spec fn reachable(c: Seq<CapabilityDefinition>, root: Seq<char>, v: Seq<char>) -> bool {
    exists|p: Seq<Seq<char>>| p.len() > 0 && p[0] == root && p.last() == v && #[trigger] is_chain(c, p)
}

/// `v` is a dependency, direct or transitive, of `root`.
pub open spec fn depends_on(c: Seq<CapabilityDefinition>, root: Seq<char>, v: Seq<char>) -> bool {
    exists|y: Seq<char>| #[trigger] reachable(c, root, y) && edge(c, y, v)
}

/// `p` is a cycle whose ids can be reached from `root`.
pub open spec fn is_cycle_from(c: Seq<CapabilityDefinition>, root: Seq<char>, p: Seq<Seq<char>>) -> bool {
    is_cycle(c, p) && reachable(c, root, p[0])
}

/// Some cycle can be reached from `root`.
pub open spec fn has_cycle_from(c: Seq<CapabilityDefinition>, root: Seq<char>) -> bool {
    exists|p: Seq<Seq<char>>| #[trigger] is_cycle_from(c, root, p)
}

/// Every id of `order` comes after the ids it depends on.
pub open spec fn dependencies_first(c: Seq<CapabilityDefinition>, order: Seq<Seq<char>>) -> bool {
    forall|i: int, v: Seq<char>|
        0 <= i < order.len() && #[trigger] edge(c, order[i], v) ==> order.take(i).contains(v)
}

/*-- lemmas -----------------------------------------------------------------------*/

proof fn lemma_first_index(c: Seq<CapabilityDefinition>, id: Seq<char>, i: int)
    requires
        is_first_with_key(c, id, i),
    ensures
        first_index(c, id) == i,
        has_key(c, id),
{
    let j = first_index(c, id);
    assert(is_first_with_key(c, id, j));
    if j < i {
        assert(c[j].key_view() != id);
    }
    if i < j {
        assert(c[i].key_view() != id);
    }
}

proof fn lemma_chain_extend(c: Seq<CapabilityDefinition>, p: Seq<Seq<char>>, v: Seq<char>)
    requires
        is_chain(c, p),
        p.len() > 0,
        edge(c, p.last(), v),
    ensures
        is_chain(c, p.push(v)),
{
    let q = p.push(v);
    assert forall|j: int| 0 <= j < q.len() - 1 implies #[trigger] edge(c, q[j], q[j + 1]) by {
        if j < p.len() - 1 {
            assert(edge(c, p[j], p[j + 1]));
        }
    }
}

proof fn lemma_chain_subrange(c: Seq<CapabilityDefinition>, p: Seq<Seq<char>>, a: int, b: int)
    requires
        is_chain(c, p),
        0 <= a <= b <= p.len(),
    ensures
        is_chain(c, p.subrange(a, b)),
{
    let q = p.subrange(a, b);
    assert forall|j: int| 0 <= j < q.len() - 1 implies #[trigger] edge(c, q[j], q[j + 1]) by {
        assert(edge(c, p[a + j], p[a + j + 1]));
    }
}

proof fn lemma_reachable_step(c: Seq<CapabilityDefinition>, root: Seq<char>, u: Seq<char>, v: Seq<char>)
    requires
        reachable(c, root, u),
        edge(c, u, v),
    ensures
        reachable(c, root, v),
{
    let p = choose|p: Seq<Seq<char>>| p.len() > 0 && p[0] == root && p.last() == u && #[trigger] is_chain(c, p);
    lemma_chain_extend(c, p, v);
    assert(p.push(v)[0] == root);
}

proof fn lemma_reachable_root(c: Seq<CapabilityDefinition>, root: Seq<char>)
    ensures
        reachable(c, root, root),
{
    let p = seq![root];
    assert(is_chain(c, p));
}

/// A chain that starts at `root` reaches each of its ids.
proof fn lemma_chain_reaches(c: Seq<CapabilityDefinition>, p: Seq<Seq<char>>, k: int)
    requires
        is_chain(c, p),
        0 <= k < p.len(),
    ensures
        reachable(c, p[0], p[k]),
{
    let q = p.take(k + 1);
    lemma_chain_subrange(c, p, 0, k + 1);
    assert(q.last() == p[k]);
}

/// Along a chain whose ids all lie in a set closed under dependencies, starting in that set.
proof fn lemma_closed_contains_chain(
    c: Seq<CapabilityDefinition>,
    s: Seq<Seq<char>>,
    p: Seq<Seq<char>>,
)
    requires
        is_chain(c, p),
        p.len() > 0,
        s.contains(p[0]),
        forall|x: Seq<char>, v: Seq<char>| s.contains(x) && #[trigger] edge(c, x, v) ==> s.contains(v),
    ensures
        s.contains(p.last()),
    decreases p.len(),
{
    if p.len() > 1 {
        let q = p.drop_last();
        lemma_chain_subrange(c, p, 0, p.len() - 1);
        assert(q =~= p.subrange(0, p.len() - 1));
        lemma_closed_contains_chain(c, s, q);
        let j = p.len() - 2;
        assert(edge(c, p[j], p[j + 1]));
        assert(q.last() == p[j]);
    }
}

/*-- termination measure ---------------------------------------------------------*/

/// Number of catalog entries whose id is not among `vis`.
pub closed spec fn unvisited(c: Seq<CapabilityDefinition>, vis: Seq<Seq<char>>) -> nat
    decreases c.len(),
{
    if c.len() == 0 {
        0
    } else {
        unvisited(c.drop_last(), vis) + (if vis.contains(c.last().id@) {
            0nat
        } else {
            1nat
        })
    }
}

proof fn lemma_unvisited_mono(c: Seq<CapabilityDefinition>, v1: Seq<Seq<char>>, v2: Seq<Seq<char>>)
    requires
        forall|x: Seq<char>| v1.contains(x) ==> v2.contains(x),
    ensures
        unvisited(c, v2) <= unvisited(c, v1),
    decreases c.len(),
{
    if c.len() > 0 {
        lemma_unvisited_mono(c.drop_last(), v1, v2);
    }
}

proof fn lemma_unvisited_strict(
    c: Seq<CapabilityDefinition>,
    v1: Seq<Seq<char>>,
    v2: Seq<Seq<char>>,
    k: Seq<char>,
)
    requires
        forall|x: Seq<char>| v1.contains(x) ==> v2.contains(x),
        has_key(c, k),
        !v1.contains(k),
        v2.contains(k),
    ensures
        unvisited(c, v2) < unvisited(c, v1),
    decreases c.len(),
{
    let i = choose|i: int| 0 <= i < c.len() && #[trigger] c[i].key_view() == k;
    if c.last().id@ == k {
        lemma_unvisited_mono(c.drop_last(), v1, v2);
    } else {
        assert(c.drop_last()[i].key_view() == k);
        lemma_unvisited_strict(c.drop_last(), v1, v2, k);
    }
}

/*-- the cycle walk's state ------------------------------------------------------------*/

/// `x` has been walked and its walk is over: reached, and off the current path.
pub open spec fn finished(vis: Seq<Seq<char>>, path: Seq<Seq<char>>, x: Seq<char>) -> bool {
    vis.contains(x) && !path.contains(x)
}

/// What a walk that has met no cycle yet keeps: the dependencies of a finished
/// id are finished, and no cycle starts at a finished id.
pub open spec fn walk_clean(c: Seq<CapabilityDefinition>, vis: Seq<Seq<char>>, path: Seq<Seq<char>>) -> bool {
    &&& forall|x: Seq<char>, v: Seq<char>| finished(vis, path, x) && #[trigger] edge(c, x, v) ==> finished(vis, path, v)
    &&& forall|p: Seq<Seq<char>>| #[trigger] is_cycle(c, p) ==> !finished(vis, path, p[0])
}

/// Along a chain that starts at a finished id, every id is finished.
proof fn lemma_finished_chain(c: Seq<CapabilityDefinition>, vis: Seq<Seq<char>>, path: Seq<Seq<char>>, p: Seq<Seq<char>>)
    requires
        walk_clean(c, vis, path),
        is_chain(c, p),
        p.len() > 0,
        finished(vis, path, p[0]),
    ensures
        finished(vis, path, p.last()),
    decreases p.len(),
{
    if p.len() > 1 {
        let q = p.drop_last();
        lemma_chain_subrange(c, p, 0, p.len() - 1);
        assert(q =~= p.subrange(0, p.len() - 1));
        lemma_finished_chain(c, vis, path, q);
        let j = p.len() - 2;
        assert(edge(c, p[j], p[j + 1]));
        assert(q.last() == p[j]);
    }
}

/// A walk from `root` that met no cycle and finished `root` shows that no
/// cycle can be reached from `root`.
proof fn lemma_clean_walk_no_cycle(c: Seq<CapabilityDefinition>, root: Seq<char>, vis: Seq<Seq<char>>, path: Seq<Seq<char>>)
    requires
        walk_clean(c, vis, path),
        finished(vis, path, root),
    ensures
        !has_cycle_from(c, root),
{
    if has_cycle_from(c, root) {
        let p = choose|p: Seq<Seq<char>>| #[trigger] is_cycle_from(c, root, p);
        let q = choose|q: Seq<Seq<char>>| q.len() > 0 && q[0] == root && q.last() == p[0] && #[trigger] is_chain(c, q);
        lemma_finished_chain(c, vis, path, q);
        assert(is_cycle(c, p));
    }
}

/*-- the graph, executable ------------------------------------------------------------*/

/// Why a resolution order could not be given.
#[derive(Debug)]
pub enum GraphError {
    /// The dependencies hold these cycles.
    CircularDependency(Vec<Vec<String>>),
}

/// The view of a list of cycles.
pub open spec fn cycles_view(cycles: Seq<Vec<String>>) -> Seq<Seq<Seq<char>>> {
    Seq::new(cycles.len(), |i: int| string_views(cycles[i]@))
}


/// State kept by the resolution-order walk: `vis` are the ids reached,
/// `res` the finished ones in finishing order, `stack` the unfinished ones,
/// outermost first.
pub open spec fn topo_state(
    c: Seq<CapabilityDefinition>,
    root: Seq<char>,
    vis: Seq<Seq<char>>,
    res: Seq<Seq<char>>,
    stack: Seq<Seq<char>>,
) -> bool {
    &&& forall|x: Seq<char>| #[trigger] res.contains(x) ==> vis.contains(x)
    &&& forall|x: Seq<char>| (#[trigger] vis.contains(x) && !res.contains(x)) <==> stack.contains(x)
    &&& res.no_duplicates()
    &&& forall|i: int, v: Seq<char>| 0 <= i < res.len() && #[trigger] edge(c, res[i], v) ==> vis.contains(v)
    &&& (!has_cycle_from(c, root) ==> dependencies_first(c, res))
    &&& is_chain(c, stack)
    &&& (stack.len() > 0 ==> stack[0] == root)
    &&& forall|x: Seq<char>| #[trigger] vis.contains(x) ==> reachable(c, root, x)
}

/// A back edge to an unfinished id closes a cycle.
proof fn lemma_back_edge(
    c: Seq<CapabilityDefinition>,
    root: Seq<char>,
    stack: Seq<Seq<char>>,
    v: Seq<char>,
)
    requires
        is_chain(c, stack),
        stack.len() > 0,
        stack[0] == root,
        stack.contains(v),
        edge(c, stack.last(), v),
    ensures
        has_cycle_from(c, root),
{
    let m = choose|m: int| 0 <= m < stack.len() && stack[m] == v;
    let cyc = stack.subrange(m, stack.len() as int);
    lemma_chain_subrange(c, stack, m, stack.len() as int);
    lemma_chain_reaches(c, stack, m);
    assert(cyc[0] == v);
    assert(cyc.last() == stack.last());
    assert(is_cycle_from(c, root, cyc));
}


/// State kept by the transitive-dependency walk: `vis` are the ids reached,
/// `gray` those whose dependencies are still being walked, `deps` the
/// dependencies collected so far.
pub open spec fn deps_state(
    c: Seq<CapabilityDefinition>,
    root: Seq<char>,
    vis: Seq<Seq<char>>,
    deps: Seq<Seq<char>>,
    gray: Set<Seq<char>>,
) -> bool {
    &&& forall|x: Seq<char>| gray.contains(x) ==> vis.contains(x)
    &&& forall|x: Seq<char>, v: Seq<char>|
        vis.contains(x) && !gray.contains(x) && #[trigger] edge(c, x, v) ==> vis.contains(v) && deps.contains(v)
    &&& forall|v: Seq<char>| #[trigger] deps.contains(v) ==> exists|y: Seq<char>| vis.contains(y) && #[trigger] edge(c, y, v)
    &&& deps.no_duplicates()
    &&& forall|x: Seq<char>| #[trigger] vis.contains(x) ==> reachable(c, root, x)
}

proof fn lemma_push_contains(s: Seq<Seq<char>>, a: Seq<char>, x: Seq<char>)
    ensures
        s.push(a).contains(x) <==> (s.contains(x) || x == a),
{
    if s.contains(x) {
        let j = choose|j: int| 0 <= j < s.len() && s[j] == x;
        assert(s.push(a)[j] == x);
    }
    if x == a {
        assert(s.push(a)[s.len() as int] == a);
    }
    if s.push(a).contains(x) {
        let j = choose|j: int| 0 <= j < s.push(a).len() && s.push(a)[j] == x;
        if j < s.len() {
            assert(s[j] == x);
        }
    }
}

/// Builds and checks the dependency graph below one capability.
pub struct DependencyGraph {
    pub root_id: String,
    pub cap_def: CapabilityDefinition,
    pub catalog: Vec<CapabilityDefinition>,
}

impl DependencyGraph {
    /// The graph below `root_id`, over the bundled capability catalog.
    pub fn new(root_id: String, cap_def: CapabilityDefinition) -> (g: Self)
        ensures
            g.root_id@ == root_id@,
            g.cap_def == cap_def,
            crate::registry::capabilities::is_bundled_capability_catalog(g.catalog@),
    {
        DependencyGraph { root_id, cap_def, catalog: CapabilityRegistry::bundled_capabilities() }
    }

    /// The graph below `root_id`, over the capabilities of `catalog`.
    pub fn with_catalog(
        root_id: String,
        cap_def: CapabilityDefinition,
        catalog: Vec<CapabilityDefinition>,
    ) -> (g: Self)
        ensures
            g.root_id@ == root_id@,
            g.cap_def == cap_def,
            g.catalog@ == catalog@,
    {
        DependencyGraph { root_id, cap_def, catalog }
    }

    /// The capabilities `id` depends on directly, in order.
    fn successor_ids(&self, id: &str) -> (r: Vec<String>)
        ensures
            string_views(r@) == successors(self.catalog@, id@),
    {
        let mut r: Vec<String> = Vec::new();
        match find_entry(&self.catalog, id) {
            Some(cap) => {
                proof {
                    let i = choose|i: int| is_first_with_key(self.catalog@, id@, i) && self.catalog@[i] == *cap;
                    lemma_first_index(self.catalog@, id@, i);
                }
                let deps = &cap.dependencies;
                let mut k: usize = 0;
                while k < deps.len()
                    invariant
                        k <= deps@.len(),
                        string_views(r@) == capability_dep_ids(deps@.take(k as int)),
                    decreases deps@.len() - k,
                {
                    let ghost before = r@;
                    match &deps[k] {
                        Dependency::Capability { id: d, .. } => {
                            r.push(crate::text::owned(d.as_str()));
                            assert(string_views(r@) =~= string_views(before).push(d@));
                        },
                        _ => {},
                    }
                    proof {
                        assert(deps@.take(k + 1).drop_last() =~= deps@.take(k as int));
                    }
                    k += 1;
                }
                assert(deps@.take(k as int) =~= deps@);
            },
            None => {},
        }
        r
    }

    /// Every cycle met by a depth-first walk from the root, each as the ids
    /// along it; none when the dependencies below the root hold no cycle.
    pub fn detect_cycles(&self) -> (r: Result<Vec<Vec<String>>, GraphError>)
        ensures
            match r {
                Ok(cycles) => forall|i: int|
                    0 <= i < cycles@.len() ==> is_cycle_from(
                        self.catalog@,
                        self.root_id@,
                        #[trigger] string_views(cycles@[i]@),
                    ),
                Err(_) => false,
            },
            !has_cycle_from(self.catalog@, self.root_id@) ==> (r matches Ok(cycles) && cycles@.len() == 0),
            has_cycle_from(self.catalog@, self.root_id@) ==> (r matches Ok(cycles) && cycles@.len() > 0),
    {
        let mut cycles: Vec<Vec<String>> = Vec::new();
        let mut path: Vec<String> = Vec::new();
        let mut visited: Vec<String> = Vec::new();
        proof {
            assert(walk_clean(self.catalog@, string_views(visited@), string_views(path@))) by {
                assert(string_views(visited@) =~= Seq::<Seq<char>>::empty());
            }
        }
        self.dfs_cycles(self.root_id.as_str(), &mut path, &mut visited, &mut cycles);
        proof {
            if !has_cycle_from(self.catalog@, self.root_id@) && cycles@.len() > 0 {
                assert(is_cycle_from(self.catalog@, self.root_id@, string_views(cycles@[0]@)));
            }
            if cycles@.len() == 0 {
                lemma_clean_walk_no_cycle(
                    self.catalog@,
                    self.root_id@,
                    string_views(visited@),
                    string_views(path@),
                );
            }
        }
        Ok(cycles)
    }

    fn dfs_cycles(
        &self,
        current: &str,
        path: &mut Vec<String>,
        visited: &mut Vec<String>,
        cycles: &mut Vec<Vec<String>>,
    )
        requires
            is_chain(self.catalog@, string_views(old(path)@)),
            old(path)@.len() > 0 ==> string_views(old(path)@)[0] == self.root_id@ && edge(
                self.catalog@,
                string_views(old(path)@).last(),
                current@,
            ),
            old(path)@.len() == 0 ==> current@ == self.root_id@,
            forall|i: int|
                0 <= i < old(cycles)@.len() ==> is_cycle_from(
                    self.catalog@,
                    self.root_id@,
                    #[trigger] string_views(old(cycles)@[i]@),
                ),
        ensures
            string_views(final(path)@) == string_views(old(path)@),
            forall|x: Seq<char>|
                string_views(old(visited)@).contains(x) ==> string_views(final(visited)@).contains(x),
            forall|i: int|
                0 <= i < final(cycles)@.len() ==> is_cycle_from(
                    self.catalog@,
                    self.root_id@,
                    #[trigger] string_views(final(cycles)@[i]@),
                ),
            final(cycles)@.len() >= old(cycles)@.len(),
            forall|i: int| 0 <= i < old(cycles)@.len() ==> #[trigger] final(cycles)@[i] == old(cycles)@[i],
            string_views(old(path)@).contains(current@) ==> final(cycles)@.len() > old(cycles)@.len(),
            !string_views(old(path)@).contains(current@) ==> string_views(final(visited)@).contains(current@),
            walk_clean(self.catalog@, string_views(old(visited)@), string_views(old(path)@)) && final(cycles)@.len()
                == old(cycles)@.len() ==> walk_clean(
                self.catalog@,
                string_views(final(visited)@),
                string_views(final(path)@),
            ) && finished(string_views(final(visited)@), string_views(final(path)@), current@),
        decreases unvisited(self.catalog@, string_views(old(visited)@)),
    {
        let ghost c = self.catalog@;
        let ghost root = self.root_id@;
        let ghost cyc0 = cycles@;
        match position_of(path, current) {
            Some(start) => {
                let cyc = tail_from(path, start);
                proof {
                    let p = string_views(path@);
                    lemma_chain_subrange(c, p, start as int, p.len() as int);
                    lemma_chain_reaches(c, p, start as int);
                    assert(is_cycle_from(c, root, string_views(cyc@)));
                    assert(p[start as int] == current@);
                }
                cycles.push(cyc);
                return ;
            },
            None => {},
        }
        if contains_string(visited, current) {
            return ;
        }
        let ghost vis0 = string_views(visited@);
        let ghost path0 = string_views(path@);
        let ghost path1 = path0.push(current@);
        path.push(crate::text::owned(current));
        visited.push(crate::text::owned(current));
        proof {
            if path0.len() > 0 {
                lemma_chain_extend(c, path0, current@);
            }
            assert(string_views(path@) =~= path1);
            assert(string_views(visited@) =~= vis0.push(current@));
            assert(vis0.push(current@)[vis0.len() as int] == current@);
            assert forall|x: Seq<char>| vis0.contains(x) implies string_views(visited@).contains(x) by {
                let j = choose|j: int| 0 <= j < vis0.len() && vis0[j] == x;
                assert(string_views(visited@)[j] == x);
            }
            assert forall|y: Seq<char>| #[trigger] finished(vis0.push(current@), path1, y) == finished(vis0, path0, y) by {
                lemma_push_contains(vis0, current@, y);
                lemma_push_contains(path0, current@, y);
            }
            if walk_clean(c, vis0, path0) {
                assert(walk_clean(c, string_views(visited@), path1));
            }
        }
        let succ = self.successor_ids(current);
        let mut k: usize = 0;
        while k < succ.len()
            invariant
                k <= succ@.len(),
                string_views(succ@) == successors(c, current@),
                c == self.catalog@,
                root == self.root_id@,
                string_views(path@) == path0.push(current@),
                path@.len() == path0.len() + 1,
                is_chain(c, path0.push(current@)),
                path0.push(current@)[0] == root,
                vis0 == string_views(old(visited)@),
                !vis0.contains(current@),
                forall|x: Seq<char>| vis0.contains(x) ==> string_views(visited@).contains(x),
                string_views(visited@).contains(current@),
                forall|i: int|
                    0 <= i < cycles@.len() ==> is_cycle_from(c, root, #[trigger] string_views(cycles@[i]@)),
                path1 == path0.push(current@),
                !path0.contains(current@),
                cyc0 == old(cycles)@,
                cycles@.len() >= cyc0.len(),
                forall|i: int| 0 <= i < cyc0.len() ==> #[trigger] cycles@[i] == cyc0[i],
                walk_clean(c, vis0, path0) && cycles@.len() == cyc0.len() ==> walk_clean(c, string_views(visited@), path1),
                walk_clean(c, vis0, path0) && cycles@.len() == cyc0.len() ==> forall|j: int|
                    0 <= j < k ==> finished(string_views(visited@), path1, #[trigger] string_views(succ@)[j]),
            decreases succ@.len() - k,
        {
            proof {
                assert(successors(c, current@).len() > 0);
                assert(has_key(c, current@));
                lemma_unvisited_strict(c, vis0, string_views(visited@), current@);
                assert(string_views(succ@)[k as int] == succ@[k as int]@);
            }
            let ghost vis_before = string_views(visited@);
            let ghost cyc_before = cycles@;
            self.dfs_cycles(succ[k].as_str(), path, visited, cycles);
            assert(path@.len() == string_views(path@).len());
            proof {
                assert forall|i: int| 0 <= i < cyc0.len() implies #[trigger] cycles@[i] == cyc0[i] by {
                    assert(cycles@[i] == cyc_before[i]);
                }
                if walk_clean(c, vis0, path0) && cycles@.len() == cyc0.len() {
                    assert(cyc_before.len() == cyc0.len());
                    assert forall|j: int| 0 <= j < k + 1 implies finished(
                        string_views(visited@),
                        path1,
                        #[trigger] string_views(succ@)[j],
                    ) by {
                        if j < k {
                            assert(finished(vis_before, path1, string_views(succ@)[j]));
                        }
                    }
                }
            }
            k += 1;
        }
        let ghost full = path@;
        let ghost vis_end = string_views(visited@);
        path.pop();
        assert(string_views(path@) =~= path0) by {
            assert forall|j: int| 0 <= j < path@.len() implies #[trigger] path@[j]@ == path0[j] by {
                assert(string_views(full)[j] == full[j]@);
                assert(path0.push(current@)[j] == path0[j]);
            }
        }
        proof {
            if walk_clean(c, vis0, path0) && cycles@.len() == cyc0.len() {
                self.lemma_finish_walk(vis_end, path0, current@);
            }
        }
    }

    /// Taking `x` off the path keeps a clean walk clean, when every dependency of
    /// `x` is finished.
    proof fn lemma_finish_walk(&self, vis: Seq<Seq<char>>, path0: Seq<Seq<char>>, x: Seq<char>)
        requires
            walk_clean(self.catalog@, vis, path0.push(x)),
            vis.contains(x),
            !path0.contains(x),
            forall|v: Seq<char>| #[trigger] edge(self.catalog@, x, v) ==> finished(vis, path0.push(x), v),
        ensures
            walk_clean(self.catalog@, vis, path0),
            finished(vis, path0, x),
    {
        let c = self.catalog@;
        let path1 = path0.push(x);
        assert forall|y: Seq<char>| #[trigger] finished(vis, path0, y) == (finished(vis, path1, y) || y == x) by {
            lemma_push_contains(path0, x, y);
        }
        assert(!finished(vis, path1, x)) by {
            lemma_push_contains(path0, x, x);
        }
        assert forall|y: Seq<char>, v: Seq<char>| finished(vis, path0, y) && #[trigger] edge(c, y, v) implies finished(
            vis,
            path0,
            v,
        ) by {
            if y != x {
                assert(finished(vis, path1, y));
            }
        }
        assert forall|p: Seq<Seq<char>>| #[trigger] is_cycle(c, p) implies !finished(vis, path0, p[0]) by {
            if finished(vis, path0, p[0]) {
                if p[0] != x {
                    assert(finished(vis, path1, p[0]));
                } else if p.len() == 1 {
                    assert(edge(c, p.last(), p[0]));
                } else {
                    let j0: int = 0;
                    assert(edge(c, p[j0], p[j0 + 1]));
                    let q = p.subrange(1, p.len() as int);
                    lemma_chain_subrange(c, p, 1, p.len() as int);
                    assert(q[0] == p[1]);
                    lemma_finished_chain(c, vis, path1, q);
                    assert(q.last() == p.last());
                    assert(edge(c, p.last(), x));
                }
            }
        }
    }

    /// A valid order to resolve the capabilities below the root in: each id
    /// after those it depends on, the root last. An empty list when the
    /// dependencies below the root hold a cycle.
    pub fn topological_sort(&self) -> (r: Result<Vec<String>, GraphError>)
        ensures
            r matches Ok(order) && (has_cycle_from(self.catalog@, self.root_id@) ==> order@.len() == 0) && (
            !has_cycle_from(self.catalog@, self.root_id@) ==> {
                &&& forall|v: Seq<char>|
                    #[trigger] string_views(order@).contains(v) <==> reachable(self.catalog@, self.root_id@, v)
                &&& string_views(order@).no_duplicates()
                &&& order@.len() > 0 && order@.last()@ == self.root_id@
                &&& dependencies_first(self.catalog@, string_views(order@))
            }),
    {
        let cycles = match self.detect_cycles() {
            Ok(cycles) => cycles,
            Err(e) => {
                return Err(e);
            },
        };
        if cycles.len() > 0 {
            return Ok(Vec::new());
        }
        let ghost c = self.catalog@;
        let ghost root = self.root_id@;
        let mut visited: Vec<String> = Vec::new();
        let mut result: Vec<String> = Vec::new();
        proof {
            assert(topo_state(c, root, string_views(visited@), string_views(result@), Seq::empty())) by {
                assert(string_views(result@) =~= Seq::<Seq<char>>::empty());
                assert(string_views(visited@) =~= Seq::<Seq<char>>::empty());
            }
        }
        self.topo_visit(self.root_id.as_str(), &mut visited, &mut result, Ghost(Seq::empty()));
        proof {
            let res = string_views(result@);
            let vis = string_views(visited@);
            assert forall|x: Seq<char>, v: Seq<char>| res.contains(x) && #[trigger] edge(c, x, v) implies res.contains(v) by {
                let i = choose|i: int| 0 <= i < res.len() && res[i] == x;
                assert(edge(c, res[i], v));
                assert(vis.contains(v));
                if !res.contains(v) {
                    assert(Seq::<Seq<char>>::empty().contains(v));
                }
            }
            assert forall|v: Seq<char>| #[trigger] res.contains(v) <==> reachable(c, root, v) by {
                if reachable(c, root, v) {
                    let p = choose|p: Seq<Seq<char>>| p.len() > 0 && p[0] == root && p.last() == v && #[trigger] is_chain(c, p);
                    if !res.contains(root) {
                        assert(vis.contains(root));
                        assert(Seq::<Seq<char>>::empty().contains(root));
                    }
                    lemma_closed_contains_chain(c, res, p);
                }
            }
        }
        Ok(result)
    }


    /// Every capability the root depends on, directly or transitively, each once.
    pub fn get_all_dependencies(&self) -> (deps: Vec<String>)
        ensures
            forall|v: Seq<char>|
                #[trigger] string_views(deps@).contains(v) <==> depends_on(self.catalog@, self.root_id@, v),
            string_views(deps@).no_duplicates(),
    {
        let ghost c = self.catalog@;
        let ghost root = self.root_id@;
        let mut visited: Vec<String> = Vec::new();
        let mut deps: Vec<String> = Vec::new();
        proof {
            lemma_reachable_root(c, root);
            assert(string_views(visited@) =~= Seq::<Seq<char>>::empty());
            assert(string_views(deps@) =~= Seq::<Seq<char>>::empty());
            assert(deps_state(c, root, string_views(visited@), string_views(deps@), Set::empty()));
        }
        self.collect_deps(self.root_id.as_str(), &mut visited, &mut deps, Ghost(Set::empty()));
        proof {
            let vis = string_views(visited@);
            let d = string_views(deps@);
            assert forall|x: Seq<char>, v: Seq<char>| vis.contains(x) && #[trigger] edge(c, x, v) implies vis.contains(v) by {
                assert(!Set::<Seq<char>>::empty().contains(x));
            }
            assert forall|v: Seq<char>| #[trigger] d.contains(v) <==> depends_on(c, root, v) by {
                if d.contains(v) {
                    let y = choose|y: Seq<char>| vis.contains(y) && #[trigger] edge(c, y, v);
                    assert(reachable(c, root, y));
                }
                if depends_on(c, root, v) {
                    let y = choose|y: Seq<char>| #[trigger] reachable(c, root, y) && edge(c, y, v);
                    let p = choose|p: Seq<Seq<char>>| p.len() > 0 && p[0] == root && p.last() == y && #[trigger] is_chain(c, p);
                    lemma_closed_contains_chain(c, vis, p);
                    assert(!Set::<Seq<char>>::empty().contains(y));
                }
            }
        }
        deps
    }

    fn collect_deps(
        &self,
        id: &str,
        visited: &mut Vec<String>,
        deps: &mut Vec<String>,
        Ghost(gray): Ghost<Set<Seq<char>>>,
    )
        requires
            deps_state(self.catalog@, self.root_id@, string_views(old(visited)@), string_views(old(deps)@), gray),
            reachable(self.catalog@, self.root_id@, id@),
        ensures
            deps_state(self.catalog@, self.root_id@, string_views(final(visited)@), string_views(final(deps)@), gray),
            forall|x: Seq<char>|
                string_views(old(visited)@).contains(x) ==> string_views(final(visited)@).contains(x),
            forall|x: Seq<char>| string_views(old(deps)@).contains(x) ==> string_views(final(deps)@).contains(x),
            string_views(final(visited)@).contains(id@),
        decreases unvisited(self.catalog@, string_views(old(visited)@)),
    {
        let ghost c = self.catalog@;
        let ghost root = self.root_id@;
        if contains_string(visited, id) {
            return ;
        }
        let ghost vis0 = string_views(visited@);
        let ghost deps0 = string_views(deps@);
        let ghost gray2 = gray.insert(id@);
        visited.push(crate::text::owned(id));
        proof {
            let vis = string_views(visited@);
            assert(vis =~= vis0.push(id@));
            assert forall|x: Seq<char>| #[trigger] vis.contains(x) <==> (vis0.contains(x) || x == id@) by {
                lemma_push_contains(vis0, id@, x);
            }
            assert(deps_state(c, root, vis, deps0, gray2));
        }
        let succ = self.successor_ids(id);
        let mut k: usize = 0;
        while k < succ.len()
            invariant
                k <= succ@.len(),
                string_views(succ@) == successors(c, id@),
                c == self.catalog@,
                root == self.root_id@,
                gray2 == gray.insert(id@),
                !gray.contains(id@),
                reachable(c, root, id@),
                deps_state(c, root, string_views(visited@), string_views(deps@), gray2),
                vis0 == string_views(old(visited)@),
                deps0 == string_views(old(deps)@),
                !vis0.contains(id@),
                forall|x: Seq<char>| vis0.contains(x) ==> string_views(visited@).contains(x),
                forall|x: Seq<char>| deps0.contains(x) ==> string_views(deps@).contains(x),
                string_views(visited@).contains(id@),
                forall|j: int|
                    0 <= j < k ==> string_views(visited@).contains(#[trigger] string_views(succ@)[j])
                        && string_views(deps@).contains(string_views(succ@)[j]),
            decreases succ@.len() - k,
        {
            let ghost d = succ@[k as int]@;
            proof {
                assert(successors(c, id@).len() > 0);
                assert(has_key(c, id@));
                lemma_unvisited_strict(c, vis0, string_views(visited@), id@);
                assert(string_views(succ@)[k as int] == d);
                assert(successors(c, id@).contains(d));
                lemma_reachable_step(c, root, id@, d);
            }
            let ghost vis_before = string_views(visited@);
            let ghost deps_before = string_views(deps@);
            self.collect_deps(succ[k].as_str(), visited, deps, Ghost(gray2));
            if !contains_string(deps, succ[k].as_str()) {
                let ghost deps_mid = string_views(deps@);
                deps.push(crate::text::owned(succ[k].as_str()));
                proof {
                    let vis = string_views(visited@);
                    let dn = string_views(deps@);
                    assert(dn =~= deps_mid.push(d));
                    assert forall|x: Seq<char>| #[trigger] dn.contains(x) <==> (deps_mid.contains(x) || x == d) by {
                        lemma_push_contains(deps_mid, d, x);
                    }
                    assert forall|v: Seq<char>| #[trigger] dn.contains(v) implies exists|y: Seq<char>| vis.contains(y) && #[trigger] edge(c, y, v) by {
                        if v == d {
                            assert(vis.contains(id@) && edge(c, id@, d));
                        } else {
                            assert(deps_mid.contains(v));
                        }
                    }
                    assert forall|x: Seq<char>, v: Seq<char>| vis.contains(x) && !gray2.contains(x) && #[trigger] edge(c, x, v) implies vis.contains(v) && dn.contains(v) by {
                        assert(deps_mid.contains(v));
                    }
                    assert(deps_state(c, root, vis, dn, gray2));
                }
            }
            proof {
                let vis = string_views(visited@);
                let dn = string_views(deps@);
                assert forall|j: int| 0 <= j < k + 1 implies vis.contains(#[trigger] string_views(succ@)[j]) && dn.contains(string_views(succ@)[j]) by {
                    if j < k {
                        assert(vis_before.contains(string_views(succ@)[j]));
                        assert(deps_before.contains(string_views(succ@)[j]));
                    }
                }
            }
            k += 1;
        }
        proof {
            let vis = string_views(visited@);
            let dn = string_views(deps@);
            assert forall|x: Seq<char>| gray.contains(x) implies vis.contains(x) by {
                assert(gray2.contains(x));
            }
            assert forall|x: Seq<char>, v: Seq<char>| vis.contains(x) && !gray.contains(x) && #[trigger] edge(c, x, v) implies vis.contains(v) && dn.contains(v) by {
                if x == id@ {
                    let j = choose|j: int| 0 <= j < successors(c, id@).len() && successors(c, id@)[j] == v;
                    assert(string_views(succ@)[j] == v);
                } else {
                    assert(!gray2.contains(x));
                }
            }
        }
    }

    fn topo_visit(
        &self,
        id: &str,
        visited: &mut Vec<String>,
        result: &mut Vec<String>,
        Ghost(stack): Ghost<Seq<Seq<char>>>,
    )
        requires
            topo_state(self.catalog@, self.root_id@, string_views(old(visited)@), string_views(old(result)@), stack),
            stack.len() > 0 ==> edge(self.catalog@, stack.last(), id@),
            stack.len() == 0 ==> id@ == self.root_id@,
        ensures
            topo_state(self.catalog@, self.root_id@, string_views(final(visited)@), string_views(final(result)@), stack),
            forall|x: Seq<char>|
                string_views(old(visited)@).contains(x) ==> string_views(final(visited)@).contains(x),
            string_views(final(visited)@).contains(id@),
            final(result)@.len() >= old(result)@.len(),
            string_views(final(result)@).take(old(result)@.len() as int) == string_views(old(result)@),
            !string_views(old(visited)@).contains(id@) ==> final(result)@.len() > 0 && final(result)@.last()@ == id@,
        decreases unvisited(self.catalog@, string_views(old(visited)@)),
    {
        let ghost c = self.catalog@;
        let ghost root = self.root_id@;
        if contains_string(visited, id) {
            assert(string_views(result@).take(result@.len() as int) =~= string_views(result@));
            return ;
        }
        let ghost vis0 = string_views(visited@);
        let ghost res0 = string_views(result@);
        let ghost stack2 = stack.push(id@);
        proof {
            if stack.len() > 0 {
                assert(stack.contains(stack.last()));
                assert(vis0.contains(stack.last()));
                lemma_reachable_step(c, root, stack.last(), id@);
                lemma_chain_extend(c, stack, id@);
            } else {
                lemma_reachable_root(c, root);
                assert(is_chain(c, stack2));
            }
            assert(!stack.contains(id@));
        }
        visited.push(crate::text::owned(id));
        proof {
            let vis = string_views(visited@);
            assert(vis =~= vis0.push(id@));
            assert(stack2[stack.len() as int] == id@);
            assert forall|x: Seq<char>| (#[trigger] vis.contains(x) && !res0.contains(x)) <==> stack2.contains(x) by {
                if x == id@ {
                    assert(vis[vis0.len() as int] == id@);
                    assert(!res0.contains(id@));
                } else {
                    assert(vis.contains(x) == vis0.contains(x)) by {
                        if vis.contains(x) {
                            let j = choose|j: int| 0 <= j < vis.len() && vis[j] == x;
                            assert(vis0[j] == x);
                        }
                        if vis0.contains(x) {
                            let j = choose|j: int| 0 <= j < vis0.len() && vis0[j] == x;
                            assert(vis[j] == x);
                        }
                    }
                    assert(stack2.contains(x) == stack.contains(x)) by {
                        if stack2.contains(x) {
                            let j = choose|j: int| 0 <= j < stack2.len() && stack2[j] == x;
                            assert(stack[j] == x);
                        }
                        if stack.contains(x) {
                            let j = choose|j: int| 0 <= j < stack.len() && stack[j] == x;
                            assert(stack2[j] == x);
                        }
                    }
                    assert((vis0.contains(x) && !res0.contains(x)) <==> stack.contains(x));
                }
            }
            assert forall|x: Seq<char>| #[trigger] vis.contains(x) implies reachable(c, root, x) by {
                if x != id@ {
                    let j = choose|j: int| 0 <= j < vis.len() && vis[j] == x;
                    assert(vis0[j] == x);
                    assert(vis0.contains(x));
                }
            }
            assert forall|x: Seq<char>| #[trigger] res0.contains(x) implies vis.contains(x) by {
                assert(vis0.contains(x));
                let j = choose|j: int| 0 <= j < vis0.len() && vis0[j] == x;
                assert(vis[j] == x);
            }
            assert forall|x: Seq<char>| vis0.contains(x) implies vis.contains(x) by {
                let j = choose|j: int| 0 <= j < vis0.len() && vis0[j] == x;
                assert(vis[j] == x);
            }
            assert forall|i: int, v: Seq<char>| 0 <= i < res0.len() && #[trigger] edge(c, res0[i], v) implies vis.contains(v) by {
                assert(vis0.contains(v));
                let j = choose|j: int| 0 <= j < vis0.len() && vis0[j] == v;
                assert(vis[j] == v);
            }
            assert(topo_state(c, root, vis, res0, stack2));
        }
        let succ = self.successor_ids(id);
        let mut k: usize = 0;
        while k < succ.len()
            invariant
                k <= succ@.len(),
                string_views(succ@) == successors(c, id@),
                c == self.catalog@,
                root == self.root_id@,
                stack2 == stack.push(id@),
                !stack.contains(id@),
                topo_state(c, root, string_views(visited@), string_views(result@), stack2),
                vis0 == string_views(old(visited)@),
                res0 == string_views(old(result)@),
                !vis0.contains(id@),
                forall|x: Seq<char>| vis0.contains(x) ==> string_views(visited@).contains(x),
                string_views(visited@).contains(id@),
                result@.len() >= res0.len(),
                string_views(result@).take(res0.len() as int) == res0,
                forall|j: int| 0 <= j < k ==> string_views(visited@).contains(#[trigger] string_views(succ@)[j]),
            decreases succ@.len() - k,
        {
            proof {
                assert(successors(c, id@).len() > 0);
                assert(has_key(c, id@));
                lemma_unvisited_strict(c, vis0, string_views(visited@), id@);
                assert(string_views(succ@)[k as int] == succ@[k as int]@);
                assert(successors(c, id@).contains(succ@[k as int]@));
            }
            let ghost vis_before = string_views(visited@);
            let ghost res_before = string_views(result@);
            self.topo_visit(succ[k].as_str(), visited, result, Ghost(stack2));
            proof {
                assert(string_views(result@).take(res0.len() as int) =~= res0) by {
                    assert(string_views(result@).take(res_before.len() as int) == res_before);
                    assert(res_before.take(res0.len() as int) == res0);
                }
                assert forall|j: int| 0 <= j < k + 1 implies string_views(visited@).contains(#[trigger] string_views(succ@)[j]) by {
                    if j < k {
                        assert(vis_before.contains(string_views(succ@)[j]));
                    }
                }
            }
            k += 1;
        }
        let ghost vis = string_views(visited@);
        let ghost res1 = string_views(result@);
        result.push(crate::text::owned(id));
        proof {
            let res = string_views(result@);
            assert(res =~= res1.push(id@));
            assert(!res1.contains(id@)) by {
                assert(stack2.contains(id@)) by { assert(stack2[stack.len() as int] == id@); }
            }
            assert forall|x: Seq<char>| #[trigger] res.contains(x) implies vis.contains(x) by {
                if x != id@ {
                    let j = choose|j: int| 0 <= j < res.len() && res[j] == x;
                    assert(res1[j] == x);
                    assert(res1.contains(x));
                }
            }
            assert forall|x: Seq<char>| (#[trigger] vis.contains(x) && !res.contains(x)) <==> stack.contains(x) by {
                if x == id@ {
                    assert(res[res1.len() as int] == id@);
                } else {
                    if res1.contains(x) {
                        let j = choose|j: int| 0 <= j < res1.len() && res1[j] == x;
                        assert(res[j] == x);
                    }
                    if res.contains(x) {
                        let j = choose|j: int| 0 <= j < res.len() && res[j] == x;
                        assert(res1[j] == x);
                    }
                    if stack2.contains(x) {
                        let j = choose|j: int| 0 <= j < stack2.len() && stack2[j] == x;
                        assert(stack[j] == x);
                    }
                    if stack.contains(x) {
                        let j = choose|j: int| 0 <= j < stack.len() && stack[j] == x;
                        assert(stack2[j] == x);
                    }
                }
            }
            assert forall|i: int, v: Seq<char>| 0 <= i < res.len() && #[trigger] edge(c, res[i], v) implies vis.contains(v) by {
                if i < res1.len() {
                    assert(res[i] == res1[i]);
                } else {
                    let j = choose|j: int| 0 <= j < successors(c, id@).len() && successors(c, id@)[j] == v;
                    assert(string_views(succ@)[j] == v);
                }
            }
            if !has_cycle_from(c, root) {
                assert forall|i: int, v: Seq<char>| 0 <= i < res.len() && #[trigger] edge(c, res[i], v) implies res.take(i).contains(v) by {
                    if i < res1.len() {
                        assert(res[i] == res1[i]);
                        assert(res.take(i) =~= res1.take(i));
                    } else {
                        assert(res.take(i) =~= res1);
                        let j = choose|j: int| 0 <= j < successors(c, id@).len() && successors(c, id@)[j] == v;
                        assert(string_views(succ@)[j] == v);
                        assert(vis.contains(v));
                        if !res1.contains(v) {
                            assert(stack2.contains(v));
                            assert(stack2.last() == id@);
                            lemma_back_edge(c, root, stack2, v);
                        }
                    }
                }
            }
            assert(res.take(res0.len() as int) =~= res0) by {
                assert(res1.take(res0.len() as int) == res0);
            }
            assert(topo_state(c, root, vis, res, stack));
        }
    }
}

/// The ids of `v` from index `start` on, owned.
fn tail_from(v: &Vec<String>, start: usize) -> (r: Vec<String>)
    requires
        start <= v@.len(),
    ensures
        string_views(r@) == string_views(v@).subrange(start as int, v@.len() as int),
{
    let mut r: Vec<String> = Vec::new();
    let mut i: usize = start;
    while i < v.len()
        invariant
            start <= i <= v@.len(),
            string_views(r@) == string_views(v@).subrange(start as int, i as int),
        decreases v@.len() - i,
    {
        let ghost before = r@;
        r.push(crate::text::owned(v[i].as_str()));
        assert(string_views(r@) =~= string_views(before).push(v@[i as int]@));
        assert(string_views(r@) =~= string_views(v@).subrange(start as int, i + 1));
        i += 1;
    }
    r
}

} // verus!
