//! JSON values as the configuration holds them.
use vstd::prelude::*;

use crate::text::str_eq;

verus! {

/// A JSON value. Numbers keep their text; object members keep their order.
#[derive(Debug)]
pub enum JsonValue {
    Null,
    Bool(bool),
    Number(String),
    Str(String),
    Array(Vec<JsonValue>),
    Object(Vec<(String, JsonValue)>),
}

/// Index of the first member of `members` named `key`, if any.
pub open spec fn member_index(members: Seq<(String, JsonValue)>, key: Seq<char>) -> Option<int> {
    if exists|i: int| 0 <= i < members.len() && #[trigger] members[i].0@ == key {
        Some(
            choose|i: int|
                0 <= i < members.len() && #[trigger] members[i].0@ == key && forall|j: int|
                    0 <= j < i ==> #[trigger] members[j].0@ != key,
        )
    } else {
        None
    }
}

/// The member `key` of an object: the first one of that name; none for other values.
pub open spec fn json_get(v: JsonValue, key: Seq<char>) -> Option<JsonValue> {
    match v {
        JsonValue::Object(members) => match member_index(members@, key) {
            Some(i) => Some(members@[i].1),
            None => None,
        },
        _ => None,
    }
}

/// The text of a string value; none for other values.
pub open spec fn json_str(v: JsonValue) -> Option<Seq<char>> {
    match v {
        JsonValue::Str(s) => Some(s@),
        _ => None,
    }
}

/// The text of the string member `key` of an object, if it has one.
pub open spec fn json_get_str(v: JsonValue, key: Seq<char>) -> Option<Seq<char>> {
    match json_get(v, key) {
        Some(m) => json_str(m),
        None => None,
    }
}

proof fn lemma_member_index(members: Seq<(String, JsonValue)>, key: Seq<char>, i: int)
    requires
        0 <= i < members.len(),
        members[i].0@ == key,
        forall|j: int| 0 <= j < i ==> #[trigger] members[j].0@ != key,
    ensures
        member_index(members, key) == Some(i),
{
    let k = choose|k: int|
        0 <= k < members.len() && #[trigger] members[k].0@ == key && forall|j: int|
            0 <= j < k ==> #[trigger] members[j].0@ != key;
    if k < i {
        assert(members[k].0@ != key);
    }
    if i < k {
        assert(members[i].0@ != key);
    }
}


/// A JSON value with its texts as character sequences.
pub enum JsonView {
    Null,
    Bool(bool),
    Number(Seq<char>),
    Str(Seq<char>),
    Array(Seq<JsonView>),
    Object(Seq<(Seq<char>, JsonView)>),
}

/// The view of a JSON value.
pub open spec fn json_view(v: JsonValue) -> JsonView
    decreases v,
{
    match v {
        JsonValue::Null => JsonView::Null,
        JsonValue::Bool(b) => JsonView::Bool(b),
        JsonValue::Number(n) => JsonView::Number(n@),
        JsonValue::Str(s) => JsonView::Str(s@),
        JsonValue::Array(items) => JsonView::Array(
            Seq::new(
                items@.len(),
                |i: int|
                    if 0 <= i < items@.len() {
                        json_view(items@[i])
                    } else {
                        JsonView::Null
                    },
            ),
        ),
        JsonValue::Object(members) => JsonView::Object(
            Seq::new(
                members@.len(),
                |i: int|
                    if 0 <= i < members@.len() {
                        (members@[i].0@, json_view(members@[i].1))
                    } else {
                        (Seq::empty(), JsonView::Null)
                    },
            ),
        ),
    }
}


impl View for JsonValue {
    type V = JsonView;

    open spec fn view(&self) -> JsonView {
        json_view(*self)
    }
}

/// The view of a list of object members.
pub open spec fn members_view(m: Seq<(String, JsonValue)>) -> Seq<(Seq<char>, JsonView)> {
    Seq::new(m.len(), |i: int| (m[i].0@, json_view(m[i].1)))
}

/// `members` with `key` set to `value`: the first member of that name takes
/// the value in place; without one, the member is added at the end.
pub open spec fn set_member(members: Seq<(Seq<char>, JsonView)>, key: Seq<char>, value: JsonView) -> Seq<(Seq<char>, JsonView)> {
    if exists|i: int| 0 <= i < members.len() && #[trigger] members[i].0 == key {
        let i = choose|i: int|
            0 <= i < members.len() && #[trigger] members[i].0 == key && forall|j: int|
                0 <= j < i ==> #[trigger] members[j].0 != key;
        members.update(i, (key, value))
    } else {
        members.push((key, value))
    }
}

/// `members` with every member of `overrides` set on it, in order.
pub open spec fn set_members(members: Seq<(Seq<char>, JsonView)>, overrides: Seq<(Seq<char>, JsonView)>) -> Seq<(Seq<char>, JsonView)>
    decreases overrides.len(),
{
    if overrides.len() == 0 {
        members
    } else {
        set_member(set_members(members, overrides.drop_last()), overrides.last().0, overrides.last().1)
    }
}

/// The view of an object is the object of its members' views.
pub proof fn lemma_object_view(members: Vec<(String, JsonValue)>)
    ensures
        json_view(JsonValue::Object(members)) == JsonView::Object(members_view(members@)),
{
    let jv = json_view(JsonValue::Object(members));
    match jv {
        JsonView::Object(s) => {
            assert(s =~= members_view(members@));
        },
        _ => {
            assert(false);
        },
    }
}


/// The view of an array is the array of its items' views.
pub proof fn lemma_array_view(items: Vec<JsonValue>)
    ensures
        json_view(JsonValue::Array(items)) == JsonView::Array(Seq::new(items@.len(), |i: int| json_view(items@[i]))),
{
    let jv = json_view(JsonValue::Array(items));
    match jv {
        JsonView::Array(s) => {
            assert(s =~= Seq::new(items@.len(), |i: int| json_view(items@[i])));
        },
        _ => {
            assert(false);
        },
    }
}

proof fn lemma_set_member_at(
    ms: Seq<(Seq<char>, JsonView)>,
    key: Seq<char>,
    value: JsonView,
    i: int,
)
    requires
        0 <= i < ms.len(),
        ms[i].0 == key,
        forall|j: int| 0 <= j < i ==> #[trigger] ms[j].0 != key,
    ensures
        set_member(ms, key, value) == ms.update(i, (key, value)),
{
    let k = choose|k: int|
        0 <= k < ms.len() && #[trigger] ms[k].0 == key && forall|j: int| 0 <= j < k ==> #[trigger] ms[j].0 != key;
    if k < i {
        assert(ms[k].0 != key);
    }
    if i < k {
        assert(ms[i].0 != key);
    }
}

/// The value of the first member named `key`, if any.
pub open spec fn lookup(members: Seq<(Seq<char>, JsonView)>, key: Seq<char>) -> Option<JsonView>
    decreases members.len(),
{
    if members.len() == 0 {
        None
    } else if members[0].0 == key {
        Some(members[0].1)
    } else {
        lookup(members.drop_first(), key)
    }
}

/// The value of the last of `overrides` named `key`, if any.
pub open spec fn last_override(overrides: Seq<(Seq<char>, JsonView)>, key: Seq<char>) -> Option<JsonView>
    decreases overrides.len(),
{
    if overrides.len() == 0 {
        None
    } else if overrides.last().0 == key {
        Some(overrides.last().1)
    } else {
        last_override(overrides.drop_last(), key)
    }
}

proof fn lemma_lookup_first(members: Seq<(Seq<char>, JsonView)>, key: Seq<char>, i: int)
    requires
        0 <= i < members.len(),
        members[i].0 == key,
        forall|j: int| 0 <= j < i ==> #[trigger] members[j].0 != key,
    ensures
        lookup(members, key) == Some(members[i].1),
    decreases i,
{
    if i > 0 {
        assert(members[0].0 != key);
        assert forall|j: int| 0 <= j < i - 1 implies #[trigger] members.drop_first()[j].0 != key by {
            assert(members.drop_first()[j] == members[j + 1]);
        }
        lemma_lookup_first(members.drop_first(), key, i - 1);
    }
}

proof fn lemma_lookup_none(members: Seq<(Seq<char>, JsonView)>, key: Seq<char>)
    requires
        forall|j: int| 0 <= j < members.len() ==> #[trigger] members[j].0 != key,
    ensures
        lookup(members, key) is None,
    decreases members.len(),
{
    if members.len() > 0 {
        assert(members[0].0 != key);
        assert forall|j: int| 0 <= j < members.len() - 1 implies #[trigger] members.drop_first()[j].0 != key by {
            assert(members.drop_first()[j] == members[j + 1]);
        }
        lemma_lookup_none(members.drop_first(), key);
    }
}

/// `lookup` finds the first member of that name.
proof fn lemma_lookup(members: Seq<(Seq<char>, JsonView)>, key: Seq<char>)
    ensures
        lookup(members, key) == (if exists|i: int| 0 <= i < members.len() && #[trigger] members[i].0 == key {
            let i = choose|i: int|
                0 <= i < members.len() && #[trigger] members[i].0 == key && forall|j: int|
                    0 <= j < i ==> #[trigger] members[j].0 != key;
            Some(members[i].1)
        } else {
            None
        }),
{
    if exists|i: int| 0 <= i < members.len() && #[trigger] members[i].0 == key {
        lemma_first_index(members, key);
        let i = choose|i: int|
            0 <= i < members.len() && #[trigger] members[i].0 == key && forall|j: int|
                0 <= j < i ==> #[trigger] members[j].0 != key;
        lemma_lookup_first(members, key, i);
    } else {
        lemma_lookup_none(members, key);
    }
}

proof fn lemma_first_index(members: Seq<(Seq<char>, JsonView)>, key: Seq<char>)
    requires
        exists|i: int| 0 <= i < members.len() && #[trigger] members[i].0 == key,
    ensures
        exists|i: int|
            0 <= i < members.len() && #[trigger] members[i].0 == key && forall|j: int|
                0 <= j < i ==> #[trigger] members[j].0 != key,
    decreases members.len(),
{
    if members[0].0 == key {
        assert(members[0].0 == key && forall|j: int| 0 <= j < 0 ==> #[trigger] members[j].0 != key);
    } else {
        let k = choose|i: int| 0 <= i < members.len() && #[trigger] members[i].0 == key;
        assert(members.drop_first()[k - 1] == members[k]);
        lemma_first_index(members.drop_first(), key);
        let i = choose|i: int|
            0 <= i < members.drop_first().len() && #[trigger] members.drop_first()[i].0 == key && forall|j: int|
                0 <= j < i ==> #[trigger] members.drop_first()[j].0 != key;
        assert(members[i + 1] == members.drop_first()[i]);
        assert forall|j: int| 0 <= j < i + 1 implies #[trigger] members[j].0 != key by {
            if j > 0 {
                assert(members[j] == members.drop_first()[j - 1]);
            }
        }
    }
}

proof fn lemma_set_member_same(members: Seq<(Seq<char>, JsonView)>, key: Seq<char>, value: JsonView)
    ensures
        lookup(set_member(members, key, value), key) == Some(value),
{
    let after = set_member(members, key, value);
    if exists|i: int| 0 <= i < members.len() && #[trigger] members[i].0 == key {
        lemma_first_index(members, key);
        let i = choose|i: int|
            0 <= i < members.len() && #[trigger] members[i].0 == key && forall|j: int|
                0 <= j < i ==> #[trigger] members[j].0 != key;
        lemma_set_member_at(members, key, value, i);
        assert forall|j: int| 0 <= j < i implies #[trigger] after[j].0 != key by {
            assert(after[j] == members[j]);
        }
        lemma_lookup_first(after, key, i);
    } else {
        assert forall|j: int| 0 <= j < members.len() implies #[trigger] after[j].0 != key by {
            assert(after[j] == members[j]);
        }
        lemma_lookup_first(after, key, members.len() as int);
    }
}

proof fn lemma_set_member_other(
    members: Seq<(Seq<char>, JsonView)>,
    key: Seq<char>,
    value: JsonView,
    other: Seq<char>,
)
    requires
        other != key,
    ensures
        lookup(set_member(members, key, value), other) == lookup(members, other),
{
    let after = set_member(members, key, value);
    lemma_lookup(members, other);
    lemma_lookup(after, other);
    if exists|i: int| 0 <= i < members.len() && #[trigger] members[i].0 == key {
        lemma_first_index(members, key);
        let i = choose|i: int|
            0 <= i < members.len() && #[trigger] members[i].0 == key && forall|j: int|
                0 <= j < i ==> #[trigger] members[j].0 != key;
        lemma_set_member_at(members, key, value, i);
        assert(after.len() == members.len());
        assert forall|j: int| 0 <= j < after.len() implies (#[trigger] after[j].0 == other) == (members[j].0 == other)
            && (after[j].0 == other ==> after[j] == members[j]) by {
            if j != i {
                assert(after[j] == members[j]);
            }
        }
        if exists|p: int| 0 <= p < members.len() && #[trigger] members[p].0 == other {
            lemma_first_index(members, other);
            let p = choose|p: int|
                0 <= p < members.len() && #[trigger] members[p].0 == other && forall|j: int|
                    0 <= j < p ==> #[trigger] members[j].0 != other;
            assert(after[p].0 == other);
            assert forall|j: int| 0 <= j < p implies #[trigger] after[j].0 != other by {
                assert(members[j].0 != other);
            }
            lemma_lookup_first(members, other, p);
            lemma_lookup_first(after, other, p);
        } else {
            assert forall|j: int| 0 <= j < after.len() implies #[trigger] after[j].0 != other by {
                assert(members[j].0 != other);
            }
            lemma_lookup_none(members, other);
            lemma_lookup_none(after, other);
        }
    } else {
        assert(after == members.push((key, value)));
        if exists|p: int| 0 <= p < members.len() && #[trigger] members[p].0 == other {
            lemma_first_index(members, other);
            let p = choose|p: int|
                0 <= p < members.len() && #[trigger] members[p].0 == other && forall|j: int|
                    0 <= j < p ==> #[trigger] members[j].0 != other;
            assert forall|j: int| 0 <= j < p implies #[trigger] after[j].0 != other by {
                assert(after[j] == members[j]);
            }
            assert(after[p] == members[p]);
            lemma_lookup_first(members, other, p);
            lemma_lookup_first(after, other, p);
        } else {
            assert forall|j: int| 0 <= j < after.len() implies #[trigger] after[j].0 != other by {
                if j < members.len() {
                    assert(after[j] == members[j]);
                }
            }
            lemma_lookup_none(members, other);
            lemma_lookup_none(after, other);
        }
    }
}

/// Setting a member is read back: the member has the value set, and every
/// other member keeps its value.
pub proof fn law_set_member_read_back(
    members: Seq<(Seq<char>, JsonView)>,
    key: Seq<char>,
    value: JsonView,
    other: Seq<char>,
)
    requires
        other != key,
    ensures
        lookup(set_member(members, key, value), key) == Some(value),
        lookup(set_member(members, key, value), other) == lookup(members, other),
{
    lemma_set_member_same(members, key, value);
    lemma_set_member_other(members, key, value, other);
}

/// Merging overrides into members: a name given by an override reads as the
/// last override of that name gave it; any other name keeps its value.
pub proof fn law_set_members_overrides_win(
    members: Seq<(Seq<char>, JsonView)>,
    overrides: Seq<(Seq<char>, JsonView)>,
    key: Seq<char>,
)
    ensures
        lookup(set_members(members, overrides), key) == match last_override(overrides, key) {
            Some(v) => Some(v),
            None => lookup(members, key),
        },
    decreases overrides.len(),
{
    if overrides.len() > 0 {
        let prev = set_members(members, overrides.drop_last());
        law_set_members_overrides_win(members, overrides.drop_last(), key);
        let k = overrides.last().0;
        let v = overrides.last().1;
        if k == key {
            lemma_set_member_same(prev, k, v);
        } else {
            lemma_set_member_other(prev, k, v, key);
        }
    }
}

/// What `json_get` reads of an object is what `lookup` finds among the
/// views of its members.
pub proof fn law_get_is_lookup(members: Seq<(String, JsonValue)>, key: Seq<char>)
    ensures
        lookup(members_view(members), key) == match member_index(members, key) {
            Some(i) => Some(json_view(members[i].1)),
            None => None,
        },
{
    let mv = members_view(members);
    if exists|i: int| 0 <= i < members.len() && #[trigger] members[i].0@ == key {
        let k = choose|i: int| 0 <= i < members.len() && #[trigger] members[i].0@ == key;
        assert(mv[k].0 == key);
        lemma_first_index(mv, key);
        let i = choose|i: int|
            0 <= i < mv.len() && #[trigger] mv[i].0 == key && forall|j: int| 0 <= j < i ==> #[trigger] mv[j].0 != key;
        assert(members[i].0@ == key);
        assert forall|j: int| 0 <= j < i implies #[trigger] members[j].0@ != key by {
            assert(mv[j].0 == members[j].0@);
        }
        lemma_member_index(members, key, i);
        lemma_lookup_first(mv, key, i);
    } else {
        assert forall|j: int| 0 <= j < mv.len() implies #[trigger] mv[j].0 != key by {
            assert(mv[j].0 == members[j].0@);
        }
        lemma_lookup_none(mv, key);
    }
}

/// An object with the given members.
pub fn object(members: Vec<(String, JsonValue)>) -> (v: JsonValue)
    ensures
        v@ == JsonView::Object(members_view(members@)),
{
    proof {
        lemma_object_view(members);
    }
    JsonValue::Object(members)
}

/// A string value.
pub fn string(s: &str) -> (v: JsonValue)
    ensures
        v@ == JsonView::Str(s@),
{
    JsonValue::Str(s.to_string())
}

/// Sets `key` to `value` among `members`, in place when a member of that name exists.
pub fn set_member_exec(members: &mut Vec<(String, JsonValue)>, key: &str, value: JsonValue)
    ensures
        members_view(final(members)@) == set_member(members_view(old(members)@), key@, value@),
{
    let ghost mv = members_view(members@);
    let mut i: usize = 0;
    while i < members.len()
        invariant
            i <= members@.len(),
            mv == members_view(members@),
            members@ == old(members)@,
            forall|j: int| 0 <= j < i ==> #[trigger] members@[j].0@ != key@,
        decreases members@.len() - i,
    {
        if str_eq(members[i].0.as_str(), key) {
            proof {
                assert forall|j: int| 0 <= j < i implies #[trigger] mv[j].0 != key@ by {
                    assert(mv[j].0 == members@[j].0@);
                }
                lemma_set_member_at(mv, key@, value@, i as int);
            }
            members.set(i, (key.to_string(), value));
            assert(members_view(members@) =~= set_member(mv, key@, value@));
            return ;
        }
        i += 1;
    }
    proof {
        assert forall|j: int| 0 <= j < mv.len() implies #[trigger] mv[j].0 != key@ by {
            assert(mv[j].0 == members@[j].0@);
        }
    }
    members.push((key.to_string(), value));
    assert(members_view(members@) =~= set_member(mv, key@, value@));
}


impl JsonValue {
    /// An object without members.
    pub fn empty_object() -> (v: JsonValue)
        ensures
            v matches JsonValue::Object(m) && m@.len() == 0,
    {
        JsonValue::Object(Vec::new())
    }

    /// The member `key` of an object (the first of that name); none for other values.
    pub fn get(&self, key: &str) -> (r: Option<&JsonValue>)
        ensures
            match r {
                Some(m) => json_get(*self, key@) == Some(*m),
                None => json_get(*self, key@) is None,
            },
    {
        match self {
            JsonValue::Object(members) => {
                let mut i: usize = 0;
                while i < members.len()
                    invariant
                        i <= members@.len(),
                        *self == JsonValue::Object(*members),
                        forall|j: int| 0 <= j < i ==> #[trigger] members@[j].0@ != key@,
                    decreases members@.len() - i,
                {
                    if str_eq(members[i].0.as_str(), key) {
                        proof {
                            lemma_member_index(members@, key@, i as int);
                            assert(json_get(*self, key@) == Some(members@[i as int].1));
                        }
                        return Some(&members[i].1);
                    }
                    i += 1;
                }
                None
            },
            _ => None,
        }
    }

    /// The text of a string value; none for other values.
    pub fn as_str(&self) -> (r: Option<&str>)
        ensures
            match r {
                Some(s) => json_str(*self) == Some(s@),
                None => json_str(*self) is None,
            },
    {
        match self {
            JsonValue::Str(s) => Some(s.as_str()),
            _ => None,
        }
    }

    /// The text of the string member `key` of an object, if it has one.
    pub fn get_str(&self, key: &str) -> (r: Option<&str>)
        ensures
            match r {
                Some(s) => json_get_str(*self, key@) == Some(s@),
                None => json_get_str(*self, key@) is None,
            },
    {
        match self.get(key) {
            Some(m) => m.as_str(),
            None => None,
        }
    }
}

/// A copy of a JSON value.
pub fn copy_json(v: &JsonValue) -> (r: JsonValue)
    ensures
        r@ == v@,
    decreases v,
{
    match v {
        JsonValue::Null => JsonValue::Null,
        JsonValue::Bool(b) => JsonValue::Bool(*b),
        JsonValue::Number(n) => JsonValue::Number(crate::text::owned(n.as_str())),
        JsonValue::Str(s) => JsonValue::Str(crate::text::owned(s.as_str())),
        JsonValue::Array(items) => {
            let mut out: Vec<JsonValue> = Vec::new();
            let mut i: usize = 0;
            while i < items.len()
                invariant
                    i <= items@.len(),
                    *v == JsonValue::Array(*items),
                    out@.len() == i,
                    forall|j: int| 0 <= j < i ==> #[trigger] out@[j]@ == items@[j]@,
                decreases items@.len() - i,
            {
                proof {
                    assert(decreases_to!(*v => (*v)->Array_0));
                    assert(decreases_to!(*items => items@));
                    assert(decreases_to!(items@ => items@[i as int]));
                }
                out.push(copy_json(&items[i]));
                i += 1;
            }
            let r = JsonValue::Array(out);
            proof {
                crate::json::lemma_array_view(out);
                crate::json::lemma_array_view(*items);
                assert forall|j: int| 0 <= j < out@.len() implies crate::json::json_view(out@[j]) == crate::json::json_view(items@[j]) by {
                    assert(out@[j]@ == items@[j]@);
                }
                assert(Seq::new(out@.len(), |i: int| crate::json::json_view(out@[i])) =~= Seq::new(
                    items@.len(),
                    |i: int| crate::json::json_view(items@[i]),
                ));
            }
            r
        },
        JsonValue::Object(members) => {
            let mut out: Vec<(String, JsonValue)> = Vec::new();
            let mut i: usize = 0;
            while i < members.len()
                invariant
                    i <= members@.len(),
                    *v == JsonValue::Object(*members),
                    out@.len() == i,
                    forall|j: int|
                        0 <= j < i ==> #[trigger] out@[j].0@ == members@[j].0@ && out@[j].1@ == members@[j].1@,
                decreases members@.len() - i,
            {
                proof {
                    assert(decreases_to!(*v => (*v)->Object_0));
                    assert(decreases_to!(*members => members@));
                    assert(decreases_to!(members@ => members@[i as int]));
                    assert(decreases_to!(members@[i as int] => members@[i as int].1));
                }
                out.push((crate::text::owned(members[i].0.as_str()), copy_json(&members[i].1)));
                i += 1;
            }
            let r = object(out);
            proof {
                crate::json::lemma_object_view(*members);
                assert(members_view(out@) =~= members_view(members@));
            }
            r
        },
    }
}


} // verus!
