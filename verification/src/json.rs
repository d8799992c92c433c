//! A JSON document model for the preference file and the generation
//! protocol: the logic reads and edits this tree; parsing and rendering
//! text is done by `serde_json`.
use vstd::prelude::*;

verus! {

/// A JSON value. Numbers keep the text `serde_json` renders them with;
/// object members keep their order and hold each key once.
#[derive(Debug, PartialEq)]
pub enum JsonValue {
    Null,
    Bool(bool),
    Number(String),
    Str(String),
    Array(Vec<JsonValue>),
    Object(Vec<(String, JsonValue)>),
}

/// The mathematical form of a JSON value.
pub enum Json {
    Null,
    Bool(bool),
    Number(Seq<char>),
    Str(Seq<char>),
    Array(Seq<Json>),
    Object(Seq<(Seq<char>, Json)>),
}

pub open spec fn json_of(v: JsonValue) -> Json
    decreases v, 2int,
{
    match v {
        JsonValue::Null => Json::Null,
        JsonValue::Bool(b) => Json::Bool(b),
        JsonValue::Number(n) => Json::Number(n@),
        JsonValue::Str(s) => Json::Str(s@),
        JsonValue::Array(a) => Json::Array(jsons_of(a@)),
        JsonValue::Object(e) => Json::Object(members_of(e@)),
    }
}

pub open spec fn jsons_of(s: Seq<JsonValue>) -> Seq<Json>
    decreases s, 1int,
{
    if s.len() == 0 {
        Seq::empty()
    } else {
        jsons_of(s.drop_last()).push(json_of(s.last()))
    }
}

pub open spec fn members_of(s: Seq<(String, JsonValue)>) -> Seq<(Seq<char>, Json)>
    decreases s, 0int,
{
    if s.len() == 0 {
        Seq::empty()
    } else {
        members_of(s.drop_last()).push((s.last().0@, json_of(s.last().1)))
    }
}

pub open spec fn opt_json(v: Option<JsonValue>) -> Option<Json> {
    match v {
        Some(j) => Some(json_of(j)),
        None => None,
    }
}

/// Value of the first member named `key`.
pub open spec fn member(m: Seq<(Seq<char>, Json)>, key: Seq<char>) -> Option<Json>
    decreases m.len(),
{
    if m.len() == 0 {
        None
    } else if m[0].0 == key {
        Some(m[0].1)
    } else {
        member(m.drop_first(), key)
    }
}

/// `v[key]` for an object, `None` otherwise.
pub open spec fn get_spec(v: Json, key: Seq<char>) -> Option<Json> {
    match v {
        Json::Object(m) => member(m, key),
        _ => None,
    }
}

/// `v[i]` for an array, `None` otherwise.
pub open spec fn at_spec(v: Json, i: int) -> Option<Json> {
    match v {
        Json::Array(a) => if 0 <= i < a.len() {
            Some(a[i])
        } else {
            None
        },
        _ => None,
    }
}

pub open spec fn as_bool_spec(v: Option<Json>) -> Option<bool> {
    match v {
        Some(Json::Bool(b)) => Some(b),
        _ => None,
    }
}

pub open spec fn as_str_spec(v: Option<Json>) -> Option<Seq<char>> {
    match v {
        Some(Json::Str(s)) => Some(s),
        _ => None,
    }
}

/// Member list with `key` set to `value`: replaced in place when present,
/// appended otherwise.
pub open spec fn set_member(m: Seq<(Seq<char>, Json)>, key: Seq<char>, value: Json) -> Seq<(Seq<char>, Json)>
    decreases m.len(),
{
    if m.len() == 0 {
        seq![(key, value)]
    } else if m[0].0 == key {
        m.update(0, (key, value))
    } else {
        seq![m[0]] + set_member(m.drop_first(), key, value)
    }
}

/// Member list without `key`.
pub open spec fn remove_member(m: Seq<(Seq<char>, Json)>, key: Seq<char>) -> Seq<(Seq<char>, Json)>
    decreases m.len(),
{
    if m.len() == 0 {
        m
    } else if m[0].0 == key {
        m.drop_first()
    } else {
        seq![m[0]] + remove_member(m.drop_first(), key)
    }
}

/// Setting a member makes it readable and leaves every other key as it was.
pub proof fn lemma_set_member_get(m: Seq<(Seq<char>, Json)>, key: Seq<char>, value: Json, other: Seq<char>)
    ensures
        member(set_member(m, key, value), key) == Some(value),
        other != key ==> member(set_member(m, key, value), other) == member(m, other),
    decreases m.len(),
{
    if m.len() > 0 && m[0].0 != key {
        lemma_set_member_get(m.drop_first(), key, value, other);
        let r = set_member(m, key, value);
        assert(r[0] == m[0]);
        assert(r.drop_first() =~= set_member(m.drop_first(), key, value));
        assert(member(r, key) == member(r.drop_first(), key));
        if other != key {
            if m[0].0 == other {
                assert(member(r, other) == Some(m[0].1));
            } else {
                assert(member(r, other) == member(r.drop_first(), other));
                assert(member(m, other) == member(m.drop_first(), other));
            }
        }
    } else if m.len() > 0 {
        let r = set_member(m, key, value);
        assert(r.drop_first() =~= m.drop_first());
        assert(r[0] == (key, value));
        if other != key {
            assert(member(r, other) == member(r.drop_first(), other));
        }
    } else {
        assert(set_member(m, key, value).drop_first() =~= Seq::<(Seq<char>, Json)>::empty());
    }
}

/// No key occurs twice.
pub open spec fn unique_keys(m: Seq<(Seq<char>, Json)>) -> bool {
    forall|i: int, j: int| 0 <= i < j < m.len() ==> (#[trigger] m[i]).0 != (#[trigger] m[j]).0
}

proof fn lemma_member_absent(m: Seq<(Seq<char>, Json)>, key: Seq<char>)
    requires
        forall|i: int| 0 <= i < m.len() ==> (#[trigger] m[i]).0 != key,
    ensures
        member(m, key) is None,
    decreases m.len(),
{
    if m.len() > 0 {
        assert forall|i: int| 0 <= i < m.drop_first().len() implies (#[trigger] m.drop_first()[i]).0 != key by {
            assert(m.drop_first()[i] == m[i + 1]);
        }
        lemma_member_absent(m.drop_first(), key);
    }
}

/// Removing a member hides it, when keys are unique, and leaves every
/// other key as it was.
pub proof fn lemma_remove_member_get(m: Seq<(Seq<char>, Json)>, key: Seq<char>, other: Seq<char>)
    ensures
        unique_keys(m) ==> member(remove_member(m, key), key) is None,
        other != key ==> member(remove_member(m, key), other) == member(m, other),
    decreases m.len(),
{
    if m.len() > 0 {
        let r = remove_member(m, key);
        if m[0].0 != key {
            assert(r.drop_first() =~= remove_member(m.drop_first(), key));
            assert(unique_keys(m) ==> unique_keys(m.drop_first())) by {
                if unique_keys(m) {
                    assert forall|i: int, j: int| 0 <= i < j < m.drop_first().len() implies (#[trigger] m.drop_first()[i]).0
                        != (#[trigger] m.drop_first()[j]).0 by {
                        assert(m.drop_first()[i] == m[i + 1] && m.drop_first()[j] == m[j + 1]);
                    }
                }
            }
            lemma_remove_member_get(m.drop_first(), key, other);
        } else {
            if unique_keys(m) {
                assert forall|i: int| 0 <= i < r.len() implies (#[trigger] r[i]).0 != key by {
                    assert(r[i] == m[i + 1]);
                }
                lemma_member_absent(r, key);
            }
        }
    }
}

pub proof fn lemma_members_len_index(s: Seq<(String, JsonValue)>)
    ensures
        members_of(s).len() == s.len(),
        forall|i: int| 0 <= i < s.len() ==> #[trigger] members_of(s)[i] == (s[i].0@, json_of(s[i].1)),
    decreases s.len(),
{
    if s.len() > 0 {
        lemma_members_len_index(s.drop_last());
        assert forall|i: int| 0 <= i < s.len() implies #[trigger] members_of(s)[i] == (s[i].0@, json_of(s[i].1)) by {
            if i < s.len() - 1 {
                assert(s.drop_last()[i] == s[i]);
            }
        }
    }
}

pub proof fn lemma_jsons_len_index(s: Seq<JsonValue>)
    ensures
        jsons_of(s).len() == s.len(),
        forall|i: int| 0 <= i < s.len() ==> #[trigger] jsons_of(s)[i] == json_of(s[i]),
    decreases s.len(),
{
    if s.len() > 0 {
        lemma_jsons_len_index(s.drop_last());
        assert forall|i: int| 0 <= i < s.len() implies #[trigger] jsons_of(s)[i] == json_of(s[i]) by {
            if i < s.len() - 1 {
                assert(s.drop_last()[i] == s[i]);
            }
        }
    }
}

/// Index `i` holds the first member named `key`.
pub open spec fn first_member_at(m: Seq<(Seq<char>, Json)>, key: Seq<char>, i: int) -> bool {
    &&& 0 <= i < m.len()
    &&& m[i].0 == key
    &&& forall|j: int| 0 <= j < i ==> (#[trigger] m[j]).0 != key
}

proof fn lemma_member_at(m: Seq<(Seq<char>, Json)>, key: Seq<char>, i: int)
    requires
        first_member_at(m, key, i),
    ensures
        member(m, key) == Some(m[i].1),
        set_member(m, key, m[i].1) == m,
    decreases i,
{
    if i > 0 {
        assert(m[0].0 != key);
        let d = m.drop_first();
        assert(first_member_at(d, key, i - 1)) by {
            assert forall|j: int| 0 <= j < i - 1 implies (#[trigger] d[j]).0 != key by {
                assert(d[j] == m[j + 1]);
            }
        }
        lemma_member_at(d, key, i - 1);
        assert(seq![m[0]] + d =~= m);
    } else {
        assert(m.update(0, (key, m[0].1)) =~= m);
    }
}

proof fn lemma_set_member_at(m: Seq<(Seq<char>, Json)>, key: Seq<char>, v: Json, i: int)
    requires
        first_member_at(m, key, i),
    ensures
        set_member(m, key, v) == m.update(i, (key, v)),
    decreases i,
{
    if i > 0 {
        let d = m.drop_first();
        assert(first_member_at(d, key, i - 1)) by {
            assert forall|j: int| 0 <= j < i - 1 implies (#[trigger] d[j]).0 != key by {
                assert(d[j] == m[j + 1]);
            }
        }
        lemma_set_member_at(d, key, v, i - 1);
        assert(seq![m[0]] + d.update(i - 1, (key, v)) =~= m.update(i, (key, v)));
    }
}

proof fn lemma_set_member_absent(m: Seq<(Seq<char>, Json)>, key: Seq<char>, v: Json)
    requires
        forall|j: int| 0 <= j < m.len() ==> (#[trigger] m[j]).0 != key,
    ensures
        set_member(m, key, v) == m.push((key, v)),
        remove_member(m, key) == m,
    decreases m.len(),
{
    if m.len() > 0 {
        let d = m.drop_first();
        assert forall|j: int| 0 <= j < d.len() implies (#[trigger] d[j]).0 != key by {
            assert(d[j] == m[j + 1]);
        }
        lemma_set_member_absent(d, key, v);
        assert(seq![m[0]] + d.push((key, v)) =~= m.push((key, v)));
        assert(seq![m[0]] + d =~= m);
    } else {
        assert(seq![(key, v)] =~= m.push((key, v)));
    }
}

proof fn lemma_remove_member_at(m: Seq<(Seq<char>, Json)>, key: Seq<char>, i: int)
    requires
        first_member_at(m, key, i),
    ensures
        remove_member(m, key) == m.remove(i),
    decreases i,
{
    if i > 0 {
        let d = m.drop_first();
        assert(first_member_at(d, key, i - 1)) by {
            assert forall|j: int| 0 <= j < i - 1 implies (#[trigger] d[j]).0 != key by {
                assert(d[j] == m[j + 1]);
            }
        }
        lemma_remove_member_at(d, key, i - 1);
        assert(seq![m[0]] + d.remove(i - 1) =~= m.remove(i));
    } else {
        assert(m.drop_first() =~= m.remove(0));
    }
}

/// Index of the first member named `key`, searching from the start.
fn find_member(entries: &Vec<(String, JsonValue)>, key: &str) -> (r: Option<usize>)
    ensures
        match r {
            Some(i) => first_member_at(members_of(entries@), key@, i as int),
            None => forall|j: int| 0 <= j < entries@.len() ==> (#[trigger] members_of(entries@)[j]).0 != key@,
        },
{
    proof {
        lemma_members_len_index(entries@);
    }
    let k = String::from_str(key);
    let mut i: usize = 0;
    while i < entries.len()
        invariant
            k@ == key@,
            0 <= i <= entries.len(),
            members_of(entries@).len() == entries@.len(),
            forall|j: int| 0 <= j < entries@.len() ==> #[trigger] members_of(entries@)[j] == (entries@[j].0@, json_of(entries@[j].1)),
            forall|j: int| 0 <= j < i ==> (#[trigger] members_of(entries@)[j]).0 != key@,
        decreases entries.len() - i,
    {
        if entries[i].0 == k {
            return Some(i);
        }
        i += 1;
    }
    None
}

/// Append member `(key, value)` to an object's members.
pub(crate) fn push_member(entries: &mut Vec<(String, JsonValue)>, key: &str, value: JsonValue)
    ensures
        members_of(final(entries)@) == members_of(old(entries)@).push((key@, json_of(value))),
{
    let ghost v = value;
    entries.push((String::from_str(key), value));
    assert(final(entries)@.drop_last() =~= old(entries)@);
}

impl JsonValue {
    /// `self[key]` when `self` is an object holding `key`.
    pub fn get(&self, key: &str) -> (r: Option<&JsonValue>)
        ensures
            match r {
                Some(x) => get_spec(json_of(*self), key@) == Some(json_of(*x)),
                None => get_spec(json_of(*self), key@) is None,
            },
    {
        match self {
            JsonValue::Object(entries) => {
                proof {
                    lemma_members_len_index(entries@);
                }
                match find_member(entries, key) {
                    Some(i) => {
                        proof {
                            lemma_member_at(members_of(entries@), key@, i as int);
                        }
                        Some(&entries[i].1)
                    },
                    None => {
                        proof {
                            lemma_member_absent(members_of(entries@), key@);
                        }
                        None
                    },
                }
            },
            _ => None,
        }
    }

    /// `self[i]` when `self` is an array longer than `i`.
    pub fn at(&self, i: usize) -> (r: Option<&JsonValue>)
        ensures
            match r {
                Some(x) => at_spec(json_of(*self), i as int) == Some(json_of(*x)),
                None => at_spec(json_of(*self), i as int) is None,
            },
    {
        match self {
            JsonValue::Array(a) => {
                proof {
                    lemma_jsons_len_index(a@);
                }
                if i < a.len() {
                    Some(&a[i])
                } else {
                    None
                }
            },
            _ => None,
        }
    }

    pub fn as_bool(&self) -> (r: Option<bool>)
        ensures
            r == as_bool_spec(Some(json_of(*self))),
    {
        match self {
            JsonValue::Bool(b) => Some(*b),
            _ => None,
        }
    }

    pub fn as_str(&self) -> (r: Option<&str>)
        ensures
            match r {
                Some(s) => as_str_spec(Some(json_of(*self))) == Some(s@),
                None => as_str_spec(Some(json_of(*self))) is None,
            },
    {
        match self {
            JsonValue::Str(s) => Some(s.as_str()),
            _ => None,
        }
    }

    /// The members of an object, `None` for any other value.
    pub fn into_members(self) -> (r: Option<Vec<(String, JsonValue)>>)
        ensures
            match r {
                Some(e) => json_of(self) == Json::Object(members_of(e@)),
                None => !(json_of(self) is Object),
            },
    {
        match self {
            JsonValue::Object(e) => Some(e),
            _ => None,
        }
    }
}

/// Set `key` to `value`: replaced in place when present, appended otherwise.
pub fn set_member_exec(entries: &mut Vec<(String, JsonValue)>, key: &str, value: JsonValue)
    ensures
        members_of(final(entries)@) == set_member(members_of(old(entries)@), key@, json_of(value)),
{
    proof {
        lemma_members_len_index(entries@);
    }
    match find_member(entries, key) {
        Some(i) => {
            proof {
                lemma_set_member_at(members_of(entries@), key@, json_of(value), i as int);
            }
            let slot = &mut entries[i];
            slot.1 = value;
            proof {
                lemma_members_len_index(entries@);
                assert(members_of(entries@) =~= members_of(old(entries)@).update(i as int, (key@, json_of(value))));
            }
        },
        None => {
            proof {
                lemma_set_member_absent(members_of(entries@), key@, json_of(value));
            }
            entries.push((String::from_str(key), value));
            proof {
                assert(entries@.drop_last() =~= old(entries)@);
            }
        },
    }
}

/// Remove the first member named `key`, if any.
pub fn remove_member_exec(entries: &mut Vec<(String, JsonValue)>, key: &str)
    ensures
        members_of(final(entries)@) == remove_member(members_of(old(entries)@), key@),
{
    proof {
        lemma_members_len_index(entries@);
    }
    match find_member(entries, key) {
        Some(i) => {
            proof {
                lemma_remove_member_at(members_of(entries@), key@, i as int);
            }
            entries.remove(i);
            proof {
                lemma_members_len_index(entries@);
                assert(members_of(entries@) =~= members_of(old(entries)@).remove(i as int));
            }
        },
        None => {
            proof {
                lemma_set_member_absent(members_of(entries@), key@, Json::Null);
            }
        },
    }
}

/// Remove member `key` and hand out its value (the first one with that
/// key); the list keeps every other member in order.
pub fn take_member(entries: &mut Vec<(String, JsonValue)>, key: &str) -> (r: Option<JsonValue>)
    ensures
        members_of(final(entries)@) == remove_member(members_of(old(entries)@), key@),
        opt_json(r) == member(members_of(old(entries)@), key@),
{
    proof {
        lemma_members_len_index(entries@);
    }
    match find_member(entries, key) {
        Some(i) => {
            proof {
                lemma_remove_member_at(members_of(entries@), key@, i as int);
                lemma_member_at(members_of(entries@), key@, i as int);
            }
            let (_, v) = entries.remove(i);
            proof {
                lemma_members_len_index(entries@);
                assert(members_of(entries@) =~= members_of(old(entries)@).remove(i as int));
            }
            Some(v)
        },
        None => {
            proof {
                lemma_set_member_absent(members_of(entries@), key@, Json::Null);
                lemma_member_absent(members_of(entries@), key@);
            }
            None
        },
    }
}

/// Setting a member keeps keys unique.
pub proof fn lemma_set_member_unique(m: Seq<(Seq<char>, Json)>, key: Seq<char>, v: Json)
    requires
        unique_keys(m),
    ensures
        unique_keys(set_member(m, key, v)),
{
    if exists|i: int| 0 <= i < m.len() && (#[trigger] m[i]).0 == key {
        let i = choose|i: int| 0 <= i < m.len() && (#[trigger] m[i]).0 == key;
        assert(first_member_at(m, key, i));
        lemma_set_member_at(m, key, v, i);
        let r = m.update(i, (key, v));
        assert forall|a: int, b: int| 0 <= a < b < r.len() implies (#[trigger] r[a]).0 != (#[trigger] r[b]).0 by {
            assert(m[a].0 != m[b].0);
        }
    } else {
        lemma_set_member_absent(m, key, v);
        let r = m.push((key, v));
        assert forall|a: int, b: int| 0 <= a < b < r.len() implies (#[trigger] r[a]).0 != (#[trigger] r[b]).0 by {
            if b < m.len() {
                assert(m[a].0 != m[b].0);
            }
        }
    }
}

/// Removing a member keeps keys unique.
pub proof fn lemma_remove_member_unique(m: Seq<(Seq<char>, Json)>, key: Seq<char>)
    requires
        unique_keys(m),
    ensures
        unique_keys(remove_member(m, key)),
{
    if exists|i: int| 0 <= i < m.len() && (#[trigger] m[i]).0 == key {
        let i = choose|i: int| 0 <= i < m.len() && (#[trigger] m[i]).0 == key;
        assert(first_member_at(m, key, i));
        lemma_remove_member_at(m, key, i);
        let r = m.remove(i);
        assert forall|a: int, b: int| 0 <= a < b < r.len() implies (#[trigger] r[a]).0 != (#[trigger] r[b]).0 by {
            let ma = if a < i { a } else { a + 1 };
            let mb = if b < i { b } else { b + 1 };
            assert(r[a] == m[ma] && r[b] == m[mb]);
        }
    } else {
        lemma_set_member_absent(m, key, Json::Null);
    }
}

/// `serde_json::Value`, carried through the conversions below.
#[verifier::external_type_specification]
#[verifier::external_body]
pub struct ExSerdeValue(serde_json::Value);

/// The tree `serde_json::from_str::<Value>` parses `text` into, or `None`
/// when `text` is not JSON.
pub uninterp spec fn json_parse_of(text: Seq<char>) -> Option<Json>;

/// The compact text `serde_json` renders for a tree (`Value`'s `Display`).
pub uninterp spec fn json_text_of(v: Json) -> Seq<char>;

/// The text `serde_json::to_string_pretty` renders for a tree.
pub uninterp spec fn json_pretty_of(v: Json) -> Seq<char>;

/// One-for-one conversion of a parsed `serde_json::Value` into the tree;
/// numbers keep their rendered text. Makes no claim of its own: the
/// wrappers that use it state what the composition gives.
#[verifier::external_body]
fn json_from_serde(v: &serde_json::Value) -> JsonValue {
    match v {
        serde_json::Value::Null => JsonValue::Null,
        serde_json::Value::Bool(b) => JsonValue::Bool(*b),
        serde_json::Value::Number(n) => JsonValue::Number(n.to_string()),
        serde_json::Value::String(s) => JsonValue::Str(s.clone()),
        serde_json::Value::Array(a) => JsonValue::Array(a.iter().map(json_from_serde).collect()),
        serde_json::Value::Object(m) => JsonValue::Object(
            m.iter().map(|(k, x)| (k.clone(), json_from_serde(x))).collect(),
        ),
    }
}

/// One-for-one conversion of the tree into a `serde_json::Value`; a number
/// whose text `serde_json` does not accept as a number becomes `null`.
/// Makes no claim of its own.
#[verifier::external_body]
fn json_to_serde(v: &JsonValue) -> serde_json::Value {
    match v {
        JsonValue::Null => serde_json::Value::Null,
        JsonValue::Bool(b) => serde_json::Value::Bool(*b),
        JsonValue::Number(n) => match n.parse::<serde_json::Number>() {
            Ok(num) => serde_json::Value::Number(num),
            Err(_) => serde_json::Value::Null,
        },
        JsonValue::Str(s) => serde_json::Value::String(s.clone()),
        JsonValue::Array(a) => serde_json::Value::Array(a.iter().map(json_to_serde).collect()),
        JsonValue::Object(e) => serde_json::Value::Object(
            e.iter().map(|(k, x)| (k.clone(), json_to_serde(x))).collect(),
        ),
    }
}

/// `serde_json::from_str::<Value>`: the parsed tree, `None` on a syntax
/// error. The contract names the result, and states that a parsed object
/// holds each key once (`serde_json::Map` is a map); JSON syntax is not
/// restated.
#[verifier::external_body]
pub(crate) fn parse_json(text: &str) -> (r: Option<JsonValue>)
    ensures
        opt_json(r) == json_parse_of(text@),
        r matches Some(JsonValue::Object(e)) ==> unique_keys(members_of(e@)),
{
    match serde_json::from_str::<serde_json::Value>(text) {
        Ok(v) => Some(json_from_serde(&v)),
        Err(_) => None,
    }
}

/// `Value`'s `Display` (compact JSON text). The contract names the result.
#[verifier::external_body]
pub(crate) fn render_json(v: &JsonValue) -> (r: String)
    ensures
        r@ == json_text_of(json_of(*v)),
{
    json_to_serde(v).to_string()
}

/// `serde_json::to_string_pretty` on the tree. Serializing a `Value` into
/// a byte vector cannot fail (its map keys are strings and writing to a
/// `Vec` has no I/O error), so the text is always there. The contract
/// names the text.
#[verifier::external_body]
pub(crate) fn render_json_pretty(v: &JsonValue) -> (r: String)
    ensures
        r@ == json_pretty_of(json_of(*v)),
{
    serde_json::to_string_pretty(&json_to_serde(v)).unwrap_or_default()
}

} // verus!
