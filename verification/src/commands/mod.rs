//! What the `catalog`, `list`, `info`, `search` and `remove` commands show:
//! tables and detail views computed from the catalogs and the configuration.
//! Printing them is left to the caller.
pub mod capability;
pub mod chat;
pub mod configure;
pub mod discovery;
pub mod finish;
pub mod launcher;
pub mod model;
pub mod provider;
pub mod setup;
pub mod setup_config;
pub mod wizard;

pub use capability::CapabilityCommands;
pub use launcher::LauncherCommands;
pub use model::ModelCommands;
pub use provider::ProviderCommands;

use vstd::prelude::*;

use crate::text::chars_of;
use crate::text::string_views;
use crate::json::JsonValue;

verus! {

broadcast use crate::text::group_views;

/*-- what a command shows ---------------------------------------------------------*/

/// A titled table: column headers and rows of cells.
#[derive(Debug)]
pub struct Table {
    pub title: String,
    pub headers: Vec<String>,
    pub rows: Vec<Vec<String>>,
}

/// A titled list of labelled values, followed by configuration settings,
/// each shown as its key and its value's JSON text.
#[derive(Debug)]
pub struct Detail {
    pub title: String,
    pub fields: Vec<(String, String)>,
    pub settings: Vec<(String, JsonValue)>,
}

/// Why a command could not do what was asked; the message is shown to the
/// user as an error, the hint (when there is one) as information after it.
#[derive(Debug)]
pub struct CommandError {
    pub message: String,
    pub hint: Option<String>,
}

/// The cells of a table, as character sequences.
pub open spec fn rows_view(rows: Seq<Vec<String>>) -> Seq<Seq<Seq<char>>> {
    Seq::new(rows.len(), |i: int| string_views(rows[i]@))
}

/// The column headers of a table, as character sequences.
pub open spec fn headers_view(t: Table) -> Seq<Seq<char>> {
    string_views(t.headers@)
}

/*-- ordering of text ------------------------------------------------------------*/

/// `a` sorts strictly before `b`, character by character (std's order on `str`).
pub open spec fn lex_lt(a: Seq<char>, b: Seq<char>) -> bool
    decreases a.len(),
{
    if a.len() == 0 {
        b.len() > 0
    } else if b.len() == 0 {
        false
    } else if a[0] != b[0] {
        (a[0] as int) < (b[0] as int)
    } else {
        lex_lt(a.drop_first(), b.drop_first())
    }
}

/// No text sorts strictly before itself.
pub proof fn lemma_lex_irreflexive(a: Seq<char>)
    ensures
        !lex_lt(a, a),
    decreases a.len(),
{
    if a.len() > 0 {
        lemma_lex_irreflexive(a.drop_first());
    }
}

/// The order on text is transitive.
pub proof fn lemma_lex_transitive(a: Seq<char>, b: Seq<char>, c: Seq<char>)
    requires
        lex_lt(a, b),
        lex_lt(b, c),
    ensures
        lex_lt(a, c),
    decreases a.len(),
{
    if a.len() > 0 && b.len() > 0 && c.len() > 0 && a[0] == b[0] && b[0] == c[0] {
        lemma_lex_transitive(a.drop_first(), b.drop_first(), c.drop_first());
    }
}

/// Of two different texts, one sorts before the other.
pub proof fn lemma_lex_total(a: Seq<char>, b: Seq<char>)
    requires
        a != b,
    ensures
        lex_lt(a, b) || lex_lt(b, a),
    decreases a.len(),
{
    if a.len() == 0 && b.len() == 0 {
        assert(a =~= b);
    } else if a.len() > 0 && b.len() > 0 {
        if a[0] == b[0] {
            if a.drop_first() =~= b.drop_first() {
                assert(a =~= b) by {
                    assert forall|i: int| 0 <= i < a.len() implies a[i] == b[i] by {
                        if i > 0 {
                            assert(a[i] == a.drop_first()[i - 1]);
                            assert(b[i] == b.drop_first()[i - 1]);
                        }
                    }
                }
            }
            lemma_lex_total(a.drop_first(), b.drop_first());
        } else {

        }
    }
}

/// Two texts never sort each before the other.
pub proof fn lemma_lex_asymmetric(a: Seq<char>, b: Seq<char>)
    requires
        lex_lt(a, b),
    ensures
        !lex_lt(b, a),
{
    if lex_lt(b, a) {
        lemma_lex_transitive(a, b, a);
        lemma_lex_irreflexive(a);
    }
}

/// Whether `a` sorts strictly before `b`.
pub fn str_lt(a: &str, b: &str) -> (r: bool)
    ensures
        r == lex_lt(a@, b@),
{
    let av = chars_of(a);
    let bv = chars_of(b);
    let mut i: usize = 0;
    assert(a@.skip(0) =~= a@ && b@.skip(0) =~= b@);
    while i < av.len() && i < bv.len()
        invariant
            i <= av@.len(),
            i <= bv@.len(),
            av@ == a@,
            bv@ == b@,
            lex_lt(a@, b@) == lex_lt(a@.skip(i as int), b@.skip(i as int)),
        decreases av@.len() - i,
    {
        let x = av[i];
        let y = bv[i];
        proof {
            let sa = a@.skip(i as int);
            let sb = b@.skip(i as int);
            assert(sa[0] == x && sb[0] == y);
            assert(sa.drop_first() =~= a@.skip(i + 1));
            assert(sb.drop_first() =~= b@.skip(i + 1));
        }
        if x != y {
            return x < y;
        }
        i += 1;
    }
    proof {
        assert(a@.skip(i as int).len() == a@.len() - i);
    }
    i == av.len() && i < bv.len()
}

/*-- sorting rows ---------------------------------------------------------------------*/

/// The sort key of a row: the listed columns, in order, compared one after the other.
pub open spec fn key_lt(a: Seq<Seq<char>>, b: Seq<Seq<char>>, cols: Seq<int>) -> bool
    decreases cols.len(),
{
    if cols.len() == 0 {
        false
    } else if a[cols[0]] != b[cols[0]] {
        lex_lt(a[cols[0]], b[cols[0]])
    } else {
        key_lt(a, b, cols.drop_first())
    }
}

/// Rows `a` and `b` differ in some key column.
pub open spec fn keys_differ(a: Seq<Seq<char>>, b: Seq<Seq<char>>, cols: Seq<int>) -> bool {
    exists|k: int| 0 <= k < cols.len() && a[cols[k]] != b[cols[k]]
}

/// The rows' keys are pairwise different.
pub open spec fn keys_distinct(rows: Seq<Seq<Seq<char>>>, cols: Seq<int>) -> bool {
    forall|i: int, j: int|
        0 <= i < rows.len() && 0 <= j < rows.len() && i != j ==> keys_differ(#[trigger] rows[i], #[trigger] rows[j], cols)
}

/// Every row has the columns of the key.
pub open spec fn has_columns(rows: Seq<Seq<Seq<char>>>, cols: Seq<int>) -> bool {
    forall|i: int, k: int| 0 <= i < rows.len() && 0 <= k < cols.len() ==> 0 <= #[trigger] cols[k] < #[trigger] rows[i].len()
}

/// Each row sorts strictly before every later one.
pub open spec fn sorted_by(rows: Seq<Seq<Seq<char>>>, cols: Seq<int>) -> bool {
    forall|i: int, j: int| 0 <= i < j < rows.len() ==> key_lt(#[trigger] rows[i], #[trigger] rows[j], cols)
}

/// `a` and `b` hold the same rows, each as often.
pub open spec fn same_rows(a: Seq<Seq<Seq<char>>>, b: Seq<Seq<Seq<char>>>) -> bool {
    a.to_multiset() == b.to_multiset()
}

proof fn lemma_key_irreflexive(a: Seq<Seq<char>>, cols: Seq<int>)
    ensures
        !key_lt(a, a, cols),
    decreases cols.len(),
{
    if cols.len() > 0 {
        lemma_key_irreflexive(a, cols.drop_first());
    }
}

proof fn lemma_key_transitive(a: Seq<Seq<char>>, b: Seq<Seq<char>>, c: Seq<Seq<char>>, cols: Seq<int>)
    requires
        key_lt(a, b, cols),
        key_lt(b, c, cols),
    ensures
        key_lt(a, c, cols),
    decreases cols.len(),
{
    if cols.len() > 0 {
        let k = cols[0];
        if a[k] != b[k] && b[k] != c[k] {
            lemma_lex_transitive(a[k], b[k], c[k]);
            if a[k] == c[k] {
                lemma_lex_asymmetric(a[k], b[k]);
            }
        } else if a[k] == b[k] && b[k] == c[k] {
            lemma_key_transitive(a, b, c, cols.drop_first());
        }
    }
}

proof fn lemma_key_total(a: Seq<Seq<char>>, b: Seq<Seq<char>>, cols: Seq<int>)
    requires
        keys_differ(a, b, cols),
    ensures
        key_lt(a, b, cols) || key_lt(b, a, cols),
    decreases cols.len(),
{
    let k0 = cols[0];
    if a[k0] != b[k0] {
        lemma_lex_total(a[k0], b[k0]);
    } else {
        let k = choose|k: int| 0 <= k < cols.len() && a[cols[k]] != b[cols[k]];
        assert(cols.drop_first()[k - 1] == cols[k]);
        lemma_key_total(a, b, cols.drop_first());
    }
}

proof fn lemma_placed_row_in_input(
    input: Seq<Seq<Seq<char>>>,
    m: int,
    placed: Seq<Seq<Seq<char>>>,
    i: int,
)
    requires
        0 <= m < input.len(),
        0 <= i < placed.len(),
        same_rows(placed, input.skip(m + 1)),
    ensures
        exists|j: int| m < j < input.len() && input[j] == placed[i],
{
    broadcast use vstd::seq_lib::group_to_multiset_ensures;

    assert(placed.contains(placed[i]));
    assert(placed.to_multiset().count(placed[i]) > 0);
    assert(input.skip(m + 1).to_multiset().count(placed[i]) > 0);
    let tail = input.skip(m + 1);
    let k = choose|k: int| 0 <= k < tail.len() && #[trigger] tail[k] == placed[i];
    assert(input[m + 1 + k] == placed[i]);
}

/// `rows`, ordered by the key columns `cols`.
pub fn sort_rows(rows: Vec<Vec<String>>, cols: &Vec<usize>) -> (r: Vec<Vec<String>>)
    requires
        has_columns(rows_view(rows@), cols@.map_values(|c: usize| c as int)),
        keys_distinct(rows_view(rows@), cols@.map_values(|c: usize| c as int)),
    ensures
        sorted_by(rows_view(r@), cols@.map_values(|c: usize| c as int)),
        same_rows(rows_view(r@), rows_view(rows@)),
        r@.len() == rows@.len(),
{
    let ghost ks = cols@.map_values(|c: usize| c as int);
    let ghost input = rows_view(rows@);
    let mut r: Vec<Vec<String>> = Vec::new();
    let mut rest = rows;
    let total = rest.len();
    proof {
        assert(input.take(total as int) =~= input);
        assert(rows_view(r@) =~= Seq::<Seq<Seq<char>>>::empty());
        assert(input.skip(total as int) =~= Seq::<Seq<Seq<char>>>::empty());
    }
    // take rows from the back of `rest`, inserting each at its place in `r`
    while rest.len() > 0
        invariant
            ks == cols@.map_values(|c: usize| c as int),
            sorted_by(rows_view(r@), ks),
            has_columns(rows_view(r@), ks),
            rest@.len() + r@.len() == total,
            total == input.len(),
            rows_view(rest@) == input.take(rest@.len() as int),
            same_rows(rows_view(r@), input.skip(rest@.len() as int)),
            has_columns(input, ks),
            keys_distinct(input, ks),
        decreases rest@.len(),
    {
        broadcast use vstd::seq_lib::group_to_multiset_ensures;

        let ghost m = rest@.len() - 1;
        let ghost restv = rows_view(rest@);
        let row = rest.pop().unwrap();
        let ghost rv = string_views(row@);
        proof {
            assert(restv[m] == rv);
            assert(input[m] == rv);
            assert(rows_view(rest@) =~= input.take(m));
            assert forall|k: int| 0 <= k < ks.len() implies 0 <= #[trigger] ks[k] < rv.len() by {
                assert(0 <= ks[k] < input[m].len());
            }
        }
        proof {
            assert forall|k: int| 0 <= k < cols@.len() implies #[trigger] cols@[k] < row@.len() by {
                assert(ks[k] == cols@[k] as int);
            }
            assert forall|i: int, k: int|
                0 <= i < r@.len() && 0 <= k < cols@.len() implies #[trigger] cols@[k] < #[trigger] r@[i]@.len() by {
                assert(ks[k] == cols@[k] as int);
                assert(rows_view(r@)[i] == string_views(r@[i]@));
            }
        }
        let mut p: usize = 0;
        while p < r.len() && !row_lt(&row, &r[p], cols)
            invariant
                p <= r@.len(),
                ks == cols@.map_values(|c: usize| c as int),
                forall|i: int| 0 <= i < p ==> !key_lt(rv, #[trigger] rows_view(r@)[i], ks),
                rv == string_views(row@),
                forall|k: int| 0 <= k < ks.len() ==> 0 <= #[trigger] ks[k] < rv.len(),
                has_columns(rows_view(r@), ks),
                forall|k: int| 0 <= k < cols@.len() ==> #[trigger] cols@[k] < row@.len(),
                forall|i: int, k: int|
                    0 <= i < r@.len() && 0 <= k < cols@.len() ==> #[trigger] cols@[k] < #[trigger] r@[i]@.len(),
            decreases r@.len() - p,
        {
            proof {
                assert(rows_view(r@)[p as int] == string_views(r@[p as int]@));
            }
            p += 1;
        }
        let ghost before = rows_view(r@);
        proof {
            if p < r@.len() {
                assert(before[p as int] == string_views(r@[p as int]@));
                assert(key_lt(rv, before[p as int], ks));
            }
            assert forall|i: int| 0 <= i < before.len() implies keys_differ(rv, #[trigger] before[i], ks) by {
                lemma_placed_row_in_input(input, m, before, i);
                let j = choose|j: int| m < j < input.len() && input[j] == before[i];
                assert(keys_differ(input[m], input[j], ks));
            }
        }
        r.insert(p, row);
        proof {
            let after = rows_view(r@);
            let q = p as int;
            assert(after =~= before.insert(q, rv));
            assert forall|i: int, j: int| 0 <= i < j < after.len() implies key_lt(#[trigger] after[i], #[trigger] after[j], ks) by {
                if j < q {
                    assert(after[i] == before[i] && after[j] == before[j]);
                } else if i > q {
                    assert(after[i] == before[i - 1] && after[j] == before[j - 1]);
                } else if i == q {
                    assert(after[j] == before[j - 1]);
                    if j - 1 > q {
                        lemma_key_transitive(rv, before[q], before[j - 1], ks);
                    }
                } else {
                    assert(after[i] == before[i]);
                    assert(!key_lt(rv, before[i], ks));
                    let k = choose|k: int| 0 <= k < ks.len() && rv[ks[k]] != before[i][ks[k]];
                    assert(keys_differ(before[i], rv, ks));
                    lemma_key_total(before[i], rv, ks);
                    if j > q {
                        assert(after[j] == before[j - 1]);
                        assert(key_lt(before[i], before[j - 1], ks));
                    }
                }
            }
            assert forall|i: int, k: int| 0 <= i < after.len() && 0 <= k < ks.len() implies 0 <= #[trigger] ks[k] < #[trigger] after[i].len() by {
                if i < q {
                    assert(after[i] == before[i]);
                } else if i > q {
                    assert(after[i] == before[i - 1]);
                }
            }
            assert(input.skip(m) =~= input.skip(m + 1).insert(0, rv));
            assert(after.to_multiset() == before.to_multiset().insert(rv));
            assert(input.skip(m).to_multiset() == input.skip(m + 1).to_multiset().insert(rv));
        }
    }
    assert(input.skip(0) =~= input);
    r
}

/// Whether `a` sorts strictly before `b` by the key columns `cols`.
fn row_lt(a: &Vec<String>, b: &Vec<String>, cols: &Vec<usize>) -> (r: bool)
    requires
        forall|k: int| 0 <= k < cols@.len() ==> #[trigger] cols@[k] < a@.len() && cols@[k] < b@.len(),
    ensures
        r == key_lt(string_views(a@), string_views(b@), cols@.map_values(|c: usize| c as int)),
{
    let ghost ks = cols@.map_values(|c: usize| c as int);
    let ghost av = string_views(a@);
    let ghost bv = string_views(b@);
    let mut k: usize = 0;
    assert(ks.skip(0) =~= ks);
    assert(av.len() == a@.len() && bv.len() == b@.len());
    while k < cols.len()
        invariant
            k <= cols@.len(),
            av == string_views(a@),
            bv == string_views(b@),
            av.len() == a@.len(),
            bv.len() == b@.len(),
            ks == cols@.map_values(|c: usize| c as int),
            forall|j: int| 0 <= j < cols@.len() ==> #[trigger] cols@[j] < a@.len() && cols@[j] < b@.len(),
            key_lt(av, bv, ks) == key_lt(av, bv, ks.skip(k as int)),
        decreases cols@.len() - k,
    {
        let c = cols[k];
        proof {
            assert(ks.skip(k as int)[0] == c as int);
            assert(ks.skip(k as int).drop_first() =~= ks.skip(k + 1));
            assert(av[c as int] == a@[c as int]@);
            assert(bv[c as int] == b@[c as int]@);
        }
        if !crate::text::str_eq(a[c].as_str(), b[c].as_str()) {
            return str_lt(a[c].as_str(), b[c].as_str());
        }
        k += 1;
    }
    false
}


/*-- listing a map ----------------------------------------------------------------*/

/// `rows` list the entries of `m`, one row each, as `row` writes them; a row
/// begins with its entry's key.
pub open spec fn lists_rows<V>(
    rows: Seq<Seq<Seq<char>>>,
    m: Map<Seq<char>, V>,
    row: spec_fn(Seq<char>, V) -> Seq<Seq<char>>,
) -> bool {
    &&& forall|i: int|
        0 <= i < rows.len() ==> m.contains_key(#[trigger] rows[i][0]) && rows[i] == row(rows[i][0], m[rows[i][0]])
    &&& forall|k: Seq<char>| #[trigger] m.contains_key(k) ==> exists|i: int| 0 <= i < rows.len() && rows[i][0] == k
}

/// Once an id is removed, a listing has no row for it: removing a configured
/// launcher, capability or provider and listing again does not show it.
pub proof fn law_removed_id_not_listed<V>(
    m: Map<Seq<char>, V>,
    id: Seq<char>,
    rows: Seq<Seq<Seq<char>>>,
    row: spec_fn(Seq<char>, V) -> Seq<Seq<char>>,
)
    requires
        lists_rows(rows, m.remove(id), row),
    ensures
        forall|i: int| 0 <= i < rows.len() ==> #[trigger] rows[i][0] != id,
{
    assert forall|i: int| 0 <= i < rows.len() implies #[trigger] rows[i][0] != id by {
        assert(m.remove(id).contains_key(rows[i][0]));
    }
}

/// A listing has a row for every id of the map, and a row is found for an
/// id exactly when the id is in the map.
pub proof fn law_listed_iff_present<V>(
    m: Map<Seq<char>, V>,
    id: Seq<char>,
    rows: Seq<Seq<Seq<char>>>,
    row: spec_fn(Seq<char>, V) -> Seq<Seq<char>>,
)
    requires
        lists_rows(rows, m, row),
    ensures
        m.contains_key(id) <==> exists|i: int| 0 <= i < rows.len() && #[trigger] rows[i][0] == id,
{
}

/// Rows made by `row` from the entries `pairs`, in order.
pub open spec fn rows_of<V>(pairs: Seq<(String, V)>, row: spec_fn(Seq<char>, V) -> Seq<Seq<char>>) -> Seq<Seq<Seq<char>>> {
    Seq::new(pairs.len(), |j: int| row(pairs[j].0@, pairs[j].1))
}

/// Rows made from the entries of a map, then sorted, list the map.
proof fn lemma_sorted_lists<V>(
    sorted: Seq<Seq<Seq<char>>>,
    pairs: Seq<(String, V)>,
    m: Map<Seq<char>, V>,
    row: spec_fn(Seq<char>, V) -> Seq<Seq<char>>,
)
    requires
        crate::strmap::lists_map(pairs, m),
        forall|k: Seq<char>, v: V| #![trigger row(k, v)] row(k, v).len() > 0 && row(k, v)[0] == k,
        same_rows(sorted, rows_of(pairs, row)),
    ensures
        lists_rows(sorted, m, row),
{
    broadcast use vstd::seq_lib::group_to_multiset_ensures;

    let pre = rows_of(pairs, row);
    assert forall|i: int| 0 <= i < sorted.len() implies m.contains_key(#[trigger] sorted[i][0]) && sorted[i] == row(
        sorted[i][0],
        m[sorted[i][0]],
    ) by {
        assert(sorted.contains(sorted[i]));
        assert(sorted.to_multiset().count(sorted[i]) > 0);
        assert(pre.to_multiset().count(sorted[i]) > 0);
        let j = choose|j: int| 0 <= j < pre.len() && pre[j] == sorted[i];
        assert(pre[j] == row(pairs[j].0@, pairs[j].1));
        assert(m.contains_key(pairs[j].0@) && m[pairs[j].0@] == pairs[j].1);
    }
    assert forall|k: Seq<char>| #[trigger] m.contains_key(k) implies exists|i: int| 0 <= i < sorted.len() && sorted[i][0] == k by {
        let j = choose|j: int| 0 <= j < pairs.len() && #[trigger] pairs[j].0@ == k;
        assert(pre[j] == row(pairs[j].0@, pairs[j].1));
        assert(pre.contains(pre[j]));
        assert(pre.to_multiset().count(pre[j]) > 0);
        assert(sorted.to_multiset().count(pre[j]) > 0);
        let i = choose|i: int| 0 <= i < sorted.len() && sorted[i] == pre[j];
        assert(sorted[i][0] == k);
    }
}

/// Rows made from map entries have distinct first columns.
proof fn lemma_rows_of_distinct<V>(
    pairs: Seq<(String, V)>,
    row: spec_fn(Seq<char>, V) -> Seq<Seq<char>>,
    cols: Seq<int>,
)
    requires
        crate::strmap::keys_unique(pairs),
        forall|k: Seq<char>, v: V| #![trigger row(k, v)] row(k, v).len() > 0 && row(k, v)[0] == k,
        cols.contains(0),
    ensures
        keys_distinct(rows_of(pairs, row), cols),
{
    let rs = rows_of(pairs, row);
    let k0 = choose|k: int| 0 <= k < cols.len() && cols[k] == 0;
    assert forall|i: int, j: int| 0 <= i < rs.len() && 0 <= j < rs.len() && i != j implies keys_differ(
        #[trigger] rs[i],
        #[trigger] rs[j],
        cols,
    ) by {
        assert(rs[i][0] == pairs[i].0@);
        assert(rs[j][0] == pairs[j].0@);
        assert(rs[i][cols[k0]] != rs[j][cols[k0]]);
    }
}

/// `prefix`, the decimal `n`, then `suffix`.
pub fn counted_title(prefix: &str, n: usize, suffix: &str) -> (s: String)
    ensures
        s@ == prefix@ + crate::text::decimal(n as nat) + suffix@,
{
    let a = crate::text::join2(prefix, crate::text::u64_to_string(n as u64).as_str());
    crate::text::join2(a.as_str(), suffix)
}

/*-- listing part of a map -------------------------------------------------------------*/

/// Rows made by `row` from the entries of `pairs` that `keep` accepts, in order.
pub open spec fn rows_of_where<V>(
    pairs: Seq<(String, V)>,
    keep: spec_fn(Seq<char>, V) -> bool,
    row: spec_fn(Seq<char>, V) -> Seq<Seq<char>>,
) -> Seq<Seq<Seq<char>>>
    decreases pairs.len(),
{
    if pairs.len() == 0 {
        Seq::empty()
    } else {
        let rest = rows_of_where(pairs.drop_last(), keep, row);
        let k = pairs.last().0@;
        let v = pairs.last().1;
        if keep(k, v) {
            rest.push(row(k, v))
        } else {
            rest
        }
    }
}

/// Two listings of the same entries, each sorted by id, are the same rows.
pub proof fn lemma_sorted_listing_unique<V>(
    a: Seq<Seq<Seq<char>>>,
    b: Seq<Seq<Seq<char>>>,
    m: Map<Seq<char>, V>,
    row: spec_fn(Seq<char>, V) -> Seq<Seq<char>>,
)
    requires
        sorted_by(a, seq![0int]),
        sorted_by(b, seq![0int]),
        lists_rows(a, m, row),
        lists_rows(b, m, row),
    ensures
        a == b,
    decreases a.len(),
{
    let cols = seq![0int];
    assert(cols[0] == 0);
    assert(cols.drop_first().len() == 0);
    if a.len() == 0 {
        if b.len() > 0 {
            assert(m.contains_key(b[0][0]));
        }
        assert(a =~= b);
    } else {
        let k = a[0][0];
        assert(m.contains_key(k));
        let j = choose|j: int| 0 <= j < b.len() && b[j][0] == k;
        if j > 0 {
            assert(key_lt(b[0], b[j], cols));
            assert(!key_lt(b[0], b[j], cols.drop_first()));
            let k0 = b[0][0];
            assert(lex_lt(k0, k));
            assert(m.contains_key(k0));
            let i = choose|i: int| 0 <= i < a.len() && a[i][0] == k0;
            if i == 0 {
                lemma_lex_irreflexive(k);
            } else {
                assert(key_lt(a[0], a[i], cols));
                assert(!key_lt(a[0], a[i], cols.drop_first()));
                assert(lex_lt(k, k0));
                lemma_lex_asymmetric(k0, k);
            }
            assert(false);
        }
        let m2 = m.remove(k);
        let a2 = a.drop_first();
        let b2 = b.drop_first();
        assert forall|i: int, jj: int| 0 <= i < jj < a2.len() implies key_lt(#[trigger] a2[i], #[trigger] a2[jj], cols) by {
            assert(key_lt(a[i + 1], a[jj + 1], cols));
        }
        assert forall|i: int, jj: int| 0 <= i < jj < b2.len() implies key_lt(#[trigger] b2[i], #[trigger] b2[jj], cols) by {
            assert(key_lt(b[i + 1], b[jj + 1], cols));
        }
        assert forall|i: int| 0 <= i < a2.len() implies m2.contains_key(#[trigger] a2[i][0]) && a2[i] == row(
            a2[i][0],
            m2[a2[i][0]],
        ) by {
            assert(key_lt(a[0], a[i + 1], cols));
            assert(!key_lt(a[0], a[i + 1], cols.drop_first()));
            if a[i + 1][0] == k {
                lemma_lex_irreflexive(k);
            }
        }
        assert forall|i: int| 0 <= i < b2.len() implies m2.contains_key(#[trigger] b2[i][0]) && b2[i] == row(
            b2[i][0],
            m2[b2[i][0]],
        ) by {
            assert(key_lt(b[0], b[i + 1], cols));
            assert(!key_lt(b[0], b[i + 1], cols.drop_first()));
            if b[i + 1][0] == k {
                lemma_lex_irreflexive(k);
            }
        }
        assert forall|x: Seq<char>| #[trigger] m2.contains_key(x) implies exists|i: int| 0 <= i < a2.len() && a2[i][0] == x by {
            let i = choose|i: int| 0 <= i < a.len() && a[i][0] == x;
            assert(a2[i - 1][0] == x);
        }
        assert forall|x: Seq<char>| #[trigger] m2.contains_key(x) implies exists|i: int| 0 <= i < b2.len() && b2[i][0] == x by {
            let i = choose|i: int| 0 <= i < b.len() && b[i][0] == x;
            assert(b2[i - 1][0] == x);
        }
        lemma_sorted_listing_unique(a2, b2, m2, row);
        assert(a[0] == b[0]);
        assert(a =~= seq![a[0]] + a2);
        assert(b =~= seq![b[0]] + b2);
    }
}

/// The entries of `m` that `keep` accepts.
pub open spec fn restrict<V>(m: Map<Seq<char>, V>, keep: spec_fn(Seq<char>, V) -> bool) -> Map<Seq<char>, V> {
    Map::new(|k: Seq<char>| m.contains_key(k) && keep(k, m[k]), |k: Seq<char>| m[k])
}

/// `x` is the row of an entry of `pairs` that `keep` accepts.
pub open spec fn row_of_kept<V>(
    pairs: Seq<(String, V)>,
    keep: spec_fn(Seq<char>, V) -> bool,
    row: spec_fn(Seq<char>, V) -> Seq<Seq<char>>,
    x: Seq<Seq<char>>,
) -> bool {
    exists|j: int| 0 <= j < pairs.len() && keep(pairs[j].0@, pairs[j].1) && x == #[trigger] row(pairs[j].0@, pairs[j].1)
}

proof fn lemma_rows_of_where<V>(
    pairs: Seq<(String, V)>,
    keep: spec_fn(Seq<char>, V) -> bool,
    row: spec_fn(Seq<char>, V) -> Seq<Seq<char>>,
)
    ensures
        forall|i: int|
            0 <= i < rows_of_where(pairs, keep, row).len() ==> row_of_kept(
                pairs,
                keep,
                row,
                #[trigger] rows_of_where(pairs, keep, row)[i],
            ),
        forall|j: int|
            0 <= j < pairs.len() && keep(pairs[j].0@, pairs[j].1) ==> rows_of_where(pairs, keep, row).contains(
                #[trigger] row(pairs[j].0@, pairs[j].1),
            ),
    decreases pairs.len(),
{
    if pairs.len() > 0 {
        let p = pairs.drop_last();
        lemma_rows_of_where(p, keep, row);
        let r = rows_of_where(pairs, keep, row);
        let rp = rows_of_where(p, keep, row);
        assert forall|i: int| 0 <= i < r.len() implies row_of_kept(pairs, keep, row, #[trigger] r[i]) by {
            let last = pairs.last();
            if keep(last.0@, last.1) {
                assert(r == rp.push(row(last.0@, last.1)));
            } else {
                assert(r == rp);
            }
            if i < rp.len() {
                assert(r[i] == rp[i]);
                assert(row_of_kept(p, keep, row, rp[i]));
                let j = choose|j: int| 0 <= j < p.len() && keep(p[j].0@, p[j].1) && rp[i] == #[trigger] row(p[j].0@, p[j].1);
                assert(pairs[j] == p[j]);
                assert(keep(pairs[j].0@, pairs[j].1) && r[i] == row(pairs[j].0@, pairs[j].1));
            } else {
                assert(r[i] == row(last.0@, last.1));
                assert(pairs[pairs.len() - 1] == last);
                let j = pairs.len() - 1;
                assert(keep(pairs[j].0@, pairs[j].1) && r[i] == row(pairs[j].0@, pairs[j].1));
            }
        }
        assert forall|j: int| 0 <= j < pairs.len() && keep(pairs[j].0@, pairs[j].1) implies r.contains(
            #[trigger] row(pairs[j].0@, pairs[j].1),
        ) by {
            if j < p.len() {
                assert(pairs[j] == p[j]);
                assert(rp.contains(row(p[j].0@, p[j].1)));
                let i = choose|i: int| 0 <= i < rp.len() && rp[i] == row(p[j].0@, p[j].1);
                assert(r[i] == rp[i]);
            } else {
                assert(r[r.len() - 1] == row(pairs[j].0@, pairs[j].1));
            }
        }
    }
}

/// Rows made from the accepted entries of a map, then sorted, list that part of the map.
proof fn lemma_sorted_lists_where<V>(
    sorted: Seq<Seq<Seq<char>>>,
    pairs: Seq<(String, V)>,
    m: Map<Seq<char>, V>,
    keep: spec_fn(Seq<char>, V) -> bool,
    row: spec_fn(Seq<char>, V) -> Seq<Seq<char>>,
)
    requires
        crate::strmap::lists_map(pairs, m),
        forall|k: Seq<char>, v: V| #![trigger row(k, v)] row(k, v).len() > 0 && row(k, v)[0] == k,
        same_rows(sorted, rows_of_where(pairs, keep, row)),
    ensures
        lists_rows(sorted, restrict(m, keep), row),
{
    broadcast use vstd::seq_lib::group_to_multiset_ensures;

    let pre = rows_of_where(pairs, keep, row);
    let rm = restrict(m, keep);
    lemma_rows_of_where(pairs, keep, row);
    assert forall|i: int| 0 <= i < sorted.len() implies rm.contains_key(#[trigger] sorted[i][0]) && sorted[i] == row(
        sorted[i][0],
        rm[sorted[i][0]],
    ) by {
        assert(sorted.contains(sorted[i]));
        assert(sorted.to_multiset().count(sorted[i]) > 0);
        assert(pre.to_multiset().count(sorted[i]) > 0);
        let q = choose|q: int| 0 <= q < pre.len() && pre[q] == sorted[i];
        assert(row_of_kept(pairs, keep, row, pre[q]));
        let j = choose|j: int| 0 <= j < pairs.len() && keep(pairs[j].0@, pairs[j].1) && pre[q] == #[trigger] row(pairs[j].0@, pairs[j].1);
        assert(m.contains_key(pairs[j].0@) && m[pairs[j].0@] == pairs[j].1);
    }
    assert forall|k: Seq<char>| #[trigger] rm.contains_key(k) implies exists|i: int| 0 <= i < sorted.len() && sorted[i][0] == k by {
        let j = choose|j: int| 0 <= j < pairs.len() && #[trigger] pairs[j].0@ == k;
        assert(m[k] == pairs[j].1);
        assert(pre.contains(row(pairs[j].0@, pairs[j].1)));
        let q = choose|q: int| 0 <= q < pre.len() && pre[q] == row(pairs[j].0@, pairs[j].1);
        assert(pre.to_multiset().count(pre[q]) > 0);
        assert(sorted.to_multiset().count(pre[q]) > 0);
        let i = choose|i: int| 0 <= i < sorted.len() && sorted[i] == pre[q];
        assert(sorted[i][0] == k);
    }
}

/// Rows made from the accepted entries of a map have distinct first columns.
proof fn lemma_rows_of_where_distinct<V>(
    pairs: Seq<(String, V)>,
    keep: spec_fn(Seq<char>, V) -> bool,
    row: spec_fn(Seq<char>, V) -> Seq<Seq<char>>,
    cols: Seq<int>,
)
    requires
        crate::strmap::keys_unique(pairs),
        forall|k: Seq<char>, v: V| #![trigger row(k, v)] row(k, v).len() > 0 && row(k, v)[0] == k,
        cols.contains(0),
    ensures
        keys_distinct(rows_of_where(pairs, keep, row), cols),
    decreases pairs.len(),
{
    let k0 = choose|k: int| 0 <= k < cols.len() && cols[k] == 0;
    if pairs.len() > 0 {
        let p = pairs.drop_last();
        assert(crate::strmap::keys_unique(p)) by {
            assert forall|i: int, j: int| 0 <= i < p.len() && 0 <= j < p.len() && i != j implies #[trigger] p[i].0@
                != #[trigger] p[j].0@ by {
                assert(p[i] == pairs[i] && p[j] == pairs[j]);
            }
        }
        lemma_rows_of_where_distinct(p, keep, row, cols);
        lemma_rows_of_where(p, keep, row);
        let r = rows_of_where(pairs, keep, row);
        let rp = rows_of_where(p, keep, row);
        let last = pairs.last();
        assert forall|i: int, j: int| 0 <= i < r.len() && 0 <= j < r.len() && i != j implies keys_differ(
            #[trigger] r[i],
            #[trigger] r[j],
            cols,
        ) by {
            if i < rp.len() && j < rp.len() {
                assert(r[i] == rp[i] && r[j] == rp[j]);
            } else {
                let (a, b) = if i < rp.len() {
                    (i, j)
                } else {
                    (j, i)
                };
                // b is the new row, a an earlier one
                assert(row_of_kept(p, keep, row, rp[a]));
                let q = choose|q: int| 0 <= q < p.len() && keep(p[q].0@, p[q].1) && rp[a] == #[trigger] row(p[q].0@, p[q].1);
                assert(pairs[q] == p[q]);
                assert(pairs[pairs.len() - 1] == last);
                assert(r[b] == row(last.0@, last.1));
                assert(r[a][cols[k0]] != r[b][cols[k0]]);
            }
        }
    }
}
} // verus!
