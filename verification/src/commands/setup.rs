//! Helpers of the setup wizard: ordering model versions and reading and
//! writing parameter counts.
use vstd::prelude::*;

use crate::models::base::ModelMetadata;
use crate::text::decimal;
use crate::text::join2;
use crate::text::parse_unsigned;
use crate::text::parse_unsigned_exec;
use crate::text::split_on;
use crate::text::str_split_on;
use crate::text::str_strip_suffix;
use crate::text::str_eq;
use crate::text::str_trim;
use crate::text::strip_suffix;
use crate::text::trim;
use crate::text::u64_to_string;

verus! {

broadcast use crate::text::group_views;

/// The numeric parts of a version: its pieces between dots that read as a
/// `u32`, in order; the others are skipped.
pub open spec fn version_parts(pieces: Seq<Seq<char>>) -> Seq<u32>
    decreases pieces.len(),
{
    if pieces.len() == 0 {
        Seq::empty()
    } else {
        let rest = version_parts(pieces.drop_last());
        match parse_unsigned(pieces.last(), u32::MAX as nat) {
            Some(n) => rest.push(n as u32),
            None => rest,
        }
    }
}

/// The numeric parts of the version `v`.
pub open spec fn parse_version(v: Seq<char>) -> Seq<u32> {
    version_parts(split_on(v, '.'))
}

/// Version parts compared for a newest-first order, as -1, 0 or 1: at the
/// first differing part the larger comes first; when one is a prefix of the
/// other, the longer comes first.
pub open spec fn version_order(va: Seq<u32>, vb: Seq<u32>) -> int
    decreases va.len(),
{
    if va.len() == 0 || vb.len() == 0 {
        if vb.len() < va.len() {
            -1
        } else if vb.len() == va.len() {
            0
        } else {
            1
        }
    } else if vb[0] < va[0] {
        -1
    } else if vb[0] > va[0] {
        1
    } else {
        version_order(va.drop_first(), vb.drop_first())
    }
}

/// `version_order` as an ordering: `Less` when the first version comes first.
pub open spec fn version_desc(va: Seq<u32>, vb: Seq<u32>) -> std::cmp::Ordering {
    if version_order(va, vb) < 0 {
        std::cmp::Ordering::Less
    } else if version_order(va, vb) == 0 {
        std::cmp::Ordering::Equal
    } else {
        std::cmp::Ordering::Greater
    }
}

fn parse_version_exec(v: &str) -> (r: Vec<u32>)
    ensures
        r@ == parse_version(v@),
{
    let pieces = str_split_on(v, '.');
    let ghost pv = crate::text::string_views(pieces@);
    let mut r: Vec<u32> = Vec::new();
    let mut i: usize = 0;
    assert(pv.take(0) =~= Seq::<Seq<char>>::empty());
    while i < pieces.len()
        invariant
            i <= pieces@.len(),
            pv == crate::text::string_views(pieces@),
            r@ == version_parts(pv.take(i as int)),
        decreases pieces@.len() - i,
    {
        proof {
            assert(pv.take(i + 1).drop_last() =~= pv.take(i as int));
            assert(pv.take(i + 1).last() == pieces@[i as int]@);
        }
        match parse_unsigned_exec(pieces[i].as_str(), 4294967295u64) {
            Some(n) => {
                r.push(n as u32);
            },
            None => {},
        }
        i += 1;
    }
    assert(pv.take(i as int) =~= pv);
    r
}

/// Compares two versions for a newest-first order, as -1, 0 or 1.
fn version_order_exec(a: &str, b: &str) -> (r: i8)
    ensures
        r == version_order(parse_version(a@), parse_version(b@)),
{
    let va = parse_version_exec(a);
    let vb = parse_version_exec(b);
    let mut i: usize = 0;
    assert(va@.skip(0) =~= va@ && vb@.skip(0) =~= vb@);
    while i < va.len() && i < vb.len()
        invariant
            i <= va@.len(),
            i <= vb@.len(),
            version_order(va@, vb@) == version_order(va@.skip(i as int), vb@.skip(i as int)),
            va@ == parse_version(a@),
            vb@ == parse_version(b@),
        decreases va@.len() - i,
    {
        proof {
            assert(va@.skip(i as int)[0] == va@[i as int]);
            assert(vb@.skip(i as int)[0] == vb@[i as int]);
            assert(va@.skip(i as int).drop_first() =~= va@.skip(i + 1));
            assert(vb@.skip(i as int).drop_first() =~= vb@.skip(i + 1));
        }
        if vb[i] < va[i] {
            return -1;
        }
        if vb[i] > va[i] {
            return 1;
        }
        i += 1;
    }
    if vb.len() < va.len() {
        -1
    } else if vb.len() == va.len() {
        0
    } else {
        1
    }
}

/// Compares two versions for a newest-first order: `Less` when `a` is the newer.
pub fn compare_versions_desc(a: &str, b: &str) -> (r: std::cmp::Ordering)
    ensures
        r == version_desc(parse_version(a@), parse_version(b@)),
{
    let c = version_order_exec(a, b);
    if c < 0 {
        std::cmp::Ordering::Less
    } else if c == 0 {
        std::cmp::Ordering::Equal
    } else {
        std::cmp::Ordering::Greater
    }
}

/// A parameter count for display: whole billions with `B`, else whole
/// millions with `M`, else the plain number.
pub open spec fn size_label(size: u64) -> Seq<char> {
    if size >= 1_000_000_000 {
        decimal((size / 1_000_000_000) as nat) + "B"@
    } else if size >= 1_000_000 {
        decimal((size / 1_000_000) as nat) + "M"@
    } else {
        decimal(size as nat)
    }
}

/// A parameter count for display.
pub fn format_size(size: u64) -> (s: String)
    ensures
        s@ == size_label(size),
{
    if size >= 1_000_000_000 {
        join2(u64_to_string(size / 1_000_000_000).as_str(), "B")
    } else if size >= 1_000_000 {
        join2(u64_to_string(size / 1_000_000).as_str(), "M")
    } else {
        u64_to_string(size)
    }
}

/// The number a size label reads as, or 0 when it does not read.
pub open spec fn read_or_zero(s: Seq<char>) -> nat {
    match parse_unsigned(s, u64::MAX as nat) {
        Some(n) => n,
        None => 0,
    }
}

/// The parameter count a label stands for: `"8B"` is eight billion, `"2M"`
/// two million, a plain number itself; what does not read counts as 0.
pub open spec fn size_value(label: Seq<char>) -> nat {
    let t = trim(label);
    match strip_suffix(t, "B"@) {
        Some(n) => read_or_zero(n) * 1_000_000_000,
        None => match strip_suffix(t, "M"@) {
            Some(n) => read_or_zero(n) * 1_000_000,
            None => read_or_zero(t),
        },
    }
}

/// The parameter count a label stands for. The count must fit in a `u64`.
pub fn parse_size(size_str: &str) -> (n: u64)
    requires
        size_value(size_str@) <= u64::MAX,
    ensures
        n == size_value(size_str@),
{
    let t = str_trim(size_str);
    match str_strip_suffix(t.as_str(), "B") {
        Some(num) => {
            let v = match parse_unsigned_exec(num.as_str(), u64::MAX) {
                Some(v) => v,
                None => 0,
            };
            v * 1_000_000_000
        },
        None => match str_strip_suffix(t.as_str(), "M") {
            Some(num) => {
                let v = match parse_unsigned_exec(num.as_str(), u64::MAX) {
                    Some(v) => v,
                    None => 0,
                };
                v * 1_000_000
            },
            None => match parse_unsigned_exec(t.as_str(), u64::MAX) {
                Some(v) => v,
                None => 0,
            },
        },
    }
}

/// The decimal digits of `n` read back as `n`: they are one or more digits.
proof fn lemma_decimal_reads(n: nat)
    ensures
        decimal(n).len() > 0,
        crate::text::all_digits(decimal(n)),
        crate::text::digits_value(decimal(n)) == n,
    decreases n,
{
    if n < 10 {
        let d = decimal(n);
        assert(d.len() == 1 && d[0] == crate::text::digit_char(n));
        assert(d.drop_last() =~= Seq::<char>::empty());
        assert(crate::text::digit_value(crate::text::digit_char(n)) == n);
        assert(crate::text::digits_value(d) == crate::text::digits_value(d.drop_last()) * 10
            + crate::text::digit_value(d.last()));
    } else {
        lemma_decimal_reads(n / 10);
        let d = decimal(n);
        let p = decimal(n / 10);
        assert(d == p.push(crate::text::digit_char(n % 10)));
        assert(d.drop_last() =~= p);
        assert(crate::text::digit_value(crate::text::digit_char(n % 10)) == n % 10);
        assert forall|i: int| 0 <= i < d.len() implies crate::text::is_digit(#[trigger] d[i]) by {
            if i < p.len() {
                assert(d[i] == p[i]);
            }
        }
        assert(crate::text::digits_value(d) == crate::text::digits_value(p) * 10 + n % 10);
    }
}

/// A label made of the digits of `n` followed by `suffix` (no digit, no
/// whitespace) is its own trim, and drops `suffix` to give the digits.
proof fn lemma_label_parts(n: nat, suffix: Seq<char>)
    requires
        suffix.len() <= 1,
        suffix.len() == 1 ==> !crate::text::is_digit(suffix[0]) && !crate::text::is_whitespace(suffix[0]),
    ensures
        trim(decimal(n) + suffix) == decimal(n) + suffix,
        strip_suffix(decimal(n) + suffix, suffix) == Some(decimal(n)),
        parse_unsigned(decimal(n), u64::MAX as nat) == (if n <= u64::MAX { Some(n) } else { None::<nat> }),
{
    lemma_decimal_reads(n);
    let d = decimal(n);
    let l = d + suffix;
    assert(crate::text::is_digit(d[0]));
    assert(l[0] == d[0]);
    assert(crate::text::trim_start(l) == l);
    if suffix.len() == 1 {
        assert(l.last() == suffix[0]);
    } else {
        assert(l =~= d);
        assert(crate::text::is_digit(d.last()));
    }
    assert(crate::text::trim_end(l) == l);
    assert(l.subrange(l.len() - suffix.len(), l.len() as int) =~= suffix);
    assert(l.take(l.len() - suffix.len()) =~= d);
    assert(d[0] != '+');
}

/// A label without a `B` or `M` at its end is read as a plain number.
proof fn lemma_no_suffix(n: nat, c: Seq<char>)
    requires
        c.len() == 1,
        !crate::text::is_digit(c[0]),
    ensures
        strip_suffix(decimal(n), c) is None,
{
    lemma_decimal_reads(n);
    let d = decimal(n);
    if crate::text::ends_with(d, c) {
        assert(d.subrange(d.len() - 1, d.len() as int)[0] == d.last());
        assert(crate::text::is_digit(d[d.len() - 1]));
    }
}

/// Reading back a displayed parameter count gives the count, for every
/// count the display shows exactly: under a million, whole millions under a
/// billion, and whole billions.
pub proof fn law_size_round_trip(n: u64)
    requires
        n < 1_000_000 || (n % 1_000_000 == 0 && n < 1_000_000_000) || n % 1_000_000_000 == 0,
    ensures
        size_value(size_label(n)) == n,
{
    reveal_strlit("B");
    reveal_strlit("M");
    let b = "B"@;
    let m = "M"@;
    assert(b.len() == 1 && m.len() == 1 && b[0] == 'B' && m[0] == 'M');
    if n >= 1_000_000_000 {
        let k = (n / 1_000_000_000) as nat;
        lemma_label_parts(k, b);
        assert(k * 1_000_000_000 == n);
    } else if n >= 1_000_000 {
        let k = (n / 1_000_000) as nat;
        lemma_label_parts(k, m);
        assert(trim(decimal(k) + m) == decimal(k) + m);
        let l = decimal(k) + m;
        assert(l.last() == 'M');
        if crate::text::ends_with(l, b) {
            assert(l.subrange(l.len() - 1, l.len() as int)[0] == l.last());
        }
        assert(k * 1_000_000 == n);
    } else {
        let e = Seq::<char>::empty();
        lemma_label_parts(n as nat, e);
        assert(decimal(n as nat) + e =~= decimal(n as nat));
        lemma_no_suffix(n as nat, b);
        lemma_no_suffix(n as nat, m);
    }
}

/// Index of the latest version: scanning in order, a version at least as
/// new as the one picked so far takes its place, so the last of the newest
/// versions is picked.
pub open spec fn pick_index(versions: Seq<Seq<u32>>) -> int
    decreases versions.len(),
{
    if versions.len() <= 1 {
        0
    } else {
        let prev = pick_index(versions.drop_last());
        if version_order(versions[prev], versions.last()) != -1 {
            versions.len() - 1
        } else {
            prev
        }
    }
}

/// The parsed versions of `models`.
pub open spec fn model_versions(models: Seq<(String, ModelMetadata)>) -> Seq<Seq<u32>> {
    Seq::new(models.len(), |i: int| parse_version(models[i].1.version@))
}

/// The model of the latest version (the last of them when several are
/// equally new); none for no models.
pub fn find_latest_version(models: &Vec<(String, ModelMetadata)>) -> (r: Option<&(String, ModelMetadata)>)
    ensures
        match r {
            Some(m) => models@.len() > 0 && *m == models@[pick_index(model_versions(models@))],
            None => models@.len() == 0,
        },
{
    if models.len() == 0 {
        return None;
    }
    let ghost vs = model_versions(models@);
    let mut best: usize = 0;
    let mut i: usize = 1;
    assert(vs.take(1).len() == 1);
    while i < models.len()
        invariant
            1 <= i <= models@.len(),
            vs == model_versions(models@),
            best == pick_index(vs.take(i as int)),
            best < i,
        decreases models@.len() - i,
    {
        proof {
            assert(vs.take(i + 1).drop_last() =~= vs.take(i as int));
            assert(vs.take(i + 1).last() == vs[i as int]);
            assert(vs.take(i as int)[best as int] == vs[best as int]);
        }
        let c = version_order_exec(models[best].1.version.as_str(), models[i].1.version.as_str());
        if c != -1 {
            best = i;
        }
        i += 1;
    }
    assert(vs.take(i as int) =~= vs);
    Some(&models[best])
}

/// The catalog entries of `pairs` of family `f` not configured in `configured`, in order.
pub open spec fn family_unconfigured(
    pairs: Seq<(String, ModelMetadata)>,
    configured: Map<Seq<char>, crate::config::ModelConfig>,
    f: Seq<char>,
) -> Seq<(String, ModelMetadata)>
    decreases pairs.len(),
{
    if pairs.len() == 0 {
        Seq::empty()
    } else {
        let rest = family_unconfigured(pairs.drop_last(), configured, f);
        if pairs.last().1.family@ == f && !configured.contains_key(pairs.last().0@) {
            rest.push(pairs.last())
        } else {
            rest
        }
    }
}

/// The families of the entries of `pairs` not configured, each once, in the
/// order they first appear.
pub open spec fn unconfigured_families(
    pairs: Seq<(String, ModelMetadata)>,
    configured: Map<Seq<char>, crate::config::ModelConfig>,
) -> Seq<Seq<char>>
    decreases pairs.len(),
{
    if pairs.len() == 0 {
        Seq::empty()
    } else {
        let rest = unconfigured_families(pairs.drop_last(), configured);
        let (k, m) = pairs.last();
        if configured.contains_key(k@) || rest.contains(m.family@) {
            rest
        } else {
            rest.push(m.family@)
        }
    }
}

/// For each family of the entries not configured, the entry the version
/// pick of `find_latest_version` chooses among that family's entries.
pub open spec fn latest_per_family(
    pairs: Seq<(String, ModelMetadata)>,
    configured: Map<Seq<char>, crate::config::ModelConfig>,
) -> Seq<Seq<char>> {
    let fams = unconfigured_families(pairs, configured);
    Seq::new(
        fams.len(),
        |i: int|
            {
                let g = family_unconfigured(pairs, configured, fams[i]);
                g[pick_index(model_versions(g))].0@
            },
    )
}

proof fn lemma_pick_in_range(vs: Seq<Seq<u32>>)
    requires
        vs.len() > 0,
    ensures
        0 <= pick_index(vs) < vs.len(),
    decreases vs.len(),
{
    if vs.len() > 1 {
        lemma_pick_in_range(vs.drop_last());
    }
}

/// The family's member the version pick chooses, scanning `pairs`.
fn pick_in_family(
    pairs: &Vec<(String, ModelMetadata)>,
    configured: &crate::strmap::StrMap<crate::config::ModelConfig>,
    f: &str,
) -> (r: Option<usize>)
    ensures
        match r {
            Some(b) => {
                let g = family_unconfigured(pairs@, configured@, f@);
                &&& g.len() > 0
                &&& b < pairs@.len()
                &&& pairs@[b as int] == g[pick_index(model_versions(g))]
            },
            None => family_unconfigured(pairs@, configured@, f@).len() == 0,
        },
{
    let mut best: Option<usize> = None;
    let mut i: usize = 0;
    while i < pairs.len()
        invariant
            i <= pairs@.len(),
            match best {
                Some(b) => {
                    let g = family_unconfigured(pairs@.take(i as int), configured@, f@);
                    &&& g.len() > 0
                    &&& b < i
                    &&& pairs@[b as int] == g[pick_index(model_versions(g))]
                },
                None => family_unconfigured(pairs@.take(i as int), configured@, f@).len() == 0,
            },
        decreases pairs@.len() - i,
    {
        let ghost t = pairs@.take(i + 1);
        let ghost g0 = family_unconfigured(pairs@.take(i as int), configured@, f@);
        proof {
            assert(t.drop_last() =~= pairs@.take(i as int));
            assert(t.last() == pairs@[i as int]);
        }
        let matches = str_eq(pairs[i].1.family.as_str(), f) && configured.get(pairs[i].0.as_str()).is_none();
        if matches {
            let ghost g1 = g0.push(pairs@[i as int]);
            assert(family_unconfigured(t, configured@, f@) == g1);
            proof {
                assert(model_versions(g1).drop_last() =~= model_versions(g0));
            }
            match best {
                None => {
                    assert(g0.len() == 0);
                    assert(g1.len() == 1);
                    best = Some(i);
                },
                Some(b) => {
                    proof {
                        lemma_pick_in_range(model_versions(g0));
                        let p = pick_index(model_versions(g0));
                        assert(model_versions(g1)[p] == parse_version(pairs@[b as int].1.version@));
                        assert(model_versions(g1).last() == parse_version(pairs@[i as int].1.version@));
                    }
                    let c = version_order_exec(pairs[b].1.version.as_str(), pairs[i].1.version.as_str());
                    if c != -1 {
                        best = Some(i);
                    }
                },
            }
        } else {
            assert(family_unconfigured(t, configured@, f@) == g0);
        }
        i += 1;
    }
    assert(pairs@.take(i as int) =~= pairs@);
    best
}

/// For each family of the catalog's models not yet configured, the model
/// the version pick chooses (see `latest_per_family`), families in the order
/// the catalog lists them.
pub fn latest_unconfigured_per_family(
    configured: &crate::strmap::StrMap<crate::config::ModelConfig>,
    catalog: &crate::registry::Factory<ModelMetadata>,
) -> (r: Vec<String>)
    ensures
        exists|pairs: Seq<(String, ModelMetadata)>|
            crate::strmap::lists_map(pairs, catalog@) && crate::text::string_views(r@) == latest_per_family(
                pairs,
                configured@,
            ),
{
    let pairs = catalog.list();
    let mut fams: Vec<String> = Vec::new();
    let mut i: usize = 0;
    while i < pairs.len()
        invariant
            i <= pairs@.len(),
            crate::text::string_views(fams@) == unconfigured_families(pairs@.take(i as int), configured@),
        decreases pairs@.len() - i,
    {
        proof {
            assert(pairs@.take(i + 1).drop_last() =~= pairs@.take(i as int));
            assert(pairs@.take(i + 1).last() == pairs@[i as int]);
        }
        if configured.get(pairs[i].0.as_str()).is_none() && !crate::text::contains_string(
            &fams,
            pairs[i].1.family.as_str(),
        ) {
            let ghost before = crate::text::string_views(fams@);
            fams.push(crate::text::owned(pairs[i].1.family.as_str()));
            assert(crate::text::string_views(fams@) =~= before.push(pairs@[i as int].1.family@));
        }
        i += 1;
    }
    assert(pairs@.take(i as int) =~= pairs@);
    let ghost fv = crate::text::string_views(fams@);
    let mut r: Vec<String> = Vec::new();
    let mut j: usize = 0;
    while j < fams.len()
        invariant
            j <= fams@.len(),
            fv == crate::text::string_views(fams@),
            fv == unconfigured_families(pairs@, configured@),
            r@.len() == j,
            forall|k: int|
                0 <= k < j ==> #[trigger] r@[k]@ == latest_per_family(pairs@, configured@)[k],
        decreases fams@.len() - j,
    {
        proof {
            lemma_family_present(pairs@, configured@, j as int);
        }
        match pick_in_family(pairs, configured, fams[j].as_str()) {
            Some(b) => {
                r.push(crate::text::owned(pairs[b].0.as_str()));
            },
            None => {
                assert(false);
            },
        }
        j += 1;
    }
    assert(crate::text::string_views(r@) =~= latest_per_family(pairs@, configured@));
    r
}

/// Every family listed has an entry that is not configured.
proof fn lemma_family_present(
    pairs: Seq<(String, ModelMetadata)>,
    configured: Map<Seq<char>, crate::config::ModelConfig>,
    j: int,
)
    requires
        0 <= j < unconfigured_families(pairs, configured).len(),
    ensures
        family_unconfigured(pairs, configured, unconfigured_families(pairs, configured)[j]).len() > 0,
    decreases pairs.len(),
{
    let f = unconfigured_families(pairs, configured)[j];
    let init = pairs.drop_last();
    let rest = unconfigured_families(init, configured);
    lemma_family_unconfigured_grows(pairs, configured, f);
    if j < rest.len() {
        lemma_family_present(init, configured, j);
    }
}

proof fn lemma_family_unconfigured_grows(
    pairs: Seq<(String, ModelMetadata)>,
    configured: Map<Seq<char>, crate::config::ModelConfig>,
    f: Seq<char>,
)
    requires
        pairs.len() > 0,
    ensures
        family_unconfigured(pairs, configured, f).len() >= family_unconfigured(pairs.drop_last(), configured, f).len(),
{
}

} // verus!
