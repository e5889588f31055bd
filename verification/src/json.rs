//! A plain model of JSON values as the adapter reads them: numbers are kept
//! as the text that the JSON holds, objects as their members in order.
use vstd::prelude::*;
use crate::text::{chars_of, seq_eq};

verus! {

/// A JSON value.
#[derive(Debug)]
pub enum Json {
    Null,
    Bool(bool),
    /// A number, as its decimal text.
    Number(String),
    Str(String),
    Array(Vec<Json>),
    Object(Vec<(String, Json)>),
}

/// The value of the first member named `key` among `members`.
pub open spec fn member_get(members: Seq<(String, Json)>, key: Seq<char>) -> Option<Json>
    decreases members.len(),
{
    if members.len() == 0 {
        None
    } else if members[0].0@ == key {
        Some(members[0].1)
    } else {
        member_get(members.drop_first(), key)
    }
}

/// `Value::get` with a text key: the member of an object, `None` otherwise.
pub open spec fn json_get(v: Json, key: Seq<char>) -> Option<Json> {
    match v {
        Json::Object(members) => member_get(members@, key),
        _ => None,
    }
}

/// Looks `key` up among the members of an object.
pub fn members_get<'a>(members: &'a Vec<(String, Json)>, key: &str) -> (r: Option<&'a Json>)
    ensures
        match r {
            Some(v) => member_get(members@, key@) == Some(*v),
            None => member_get(members@, key@) is None,
        },
{
    let kv = chars_of(key);
    assert(members@.subrange(0, members@.len() as int) =~= members@);
    let mut i: usize = 0;
    while i < members.len()
        invariant
            i <= members@.len(),
            kv@ == key@,
            member_get(members@, key@) == member_get(members@.subrange(i as int, members@.len() as int), key@),
        decreases members@.len() - i,
    {
        let ghost rest = members@.subrange(i as int, members@.len() as int);
        assert(rest[0] == members@[i as int]);
        assert(rest.drop_first() =~= members@.subrange(i + 1, members@.len() as int));
        let ev = chars_of(members[i].0.as_str());
        if seq_eq(&ev, &kv) {
            return Some(&members[i].1);
        }
        i = i + 1;
    }
    None
}

/// `Value::get`.
pub fn get<'a>(v: &'a Json, key: &str) -> (r: Option<&'a Json>)
    ensures
        match r {
            Some(x) => json_get(*v, key@) == Some(*x),
            None => json_get(*v, key@) is None,
        },
{
    match v {
        Json::Object(members) => members_get(members, key),
        _ => None,
    }
}

/// The outcome of parsing a JSON text with `serde_json::from_str`: the value,
/// or the parser's error message.
pub uninterp spec fn json_parse_outcome(text: Seq<char>) -> Result<Json, Seq<char>>;

/// `serde_json::Value`, which Verus sees as opaque.
#[verifier::external_type_specification]
#[verifier::external_body]
pub struct ExJsonValue(serde_json::Value);

/// Converts a parsed `serde_json::Value` into the library's model, one node
/// for one node; numbers keep the text that `serde_json` prints for them.
#[verifier::external_body]
fn json_from_value(v: &serde_json::Value) -> Json {
    match v {
        serde_json::Value::Null => Json::Null,
        serde_json::Value::Bool(b) => Json::Bool(*b),
        serde_json::Value::Number(n) => Json::Number(n.to_string()),
        serde_json::Value::String(s) => Json::Str(s.clone()),
        serde_json::Value::Array(items) => Json::Array(items.iter().map(json_from_value).collect()),
        serde_json::Value::Object(members) => Json::Object(
            members.iter().map(|(k, x)| (k.clone(), json_from_value(x))).collect(),
        ),
    }
}

/// Wraps `serde_json::from_str::<serde_json::Value>`. The outcome depends on
/// the text alone and is named `json_parse_outcome`; what the parser accepts
/// and the wording of its errors are not written out here.
#[verifier::external_body]
pub fn parse_json(text: &str) -> (r: Result<Json, String>)
    ensures
        match r {
            Ok(v) => json_parse_outcome(text@) == Ok::<Json, Seq<char>>(v),
            Err(m) => json_parse_outcome(text@) == Err::<Json, Seq<char>>(m@),
        },
{
    match serde_json::from_str::<serde_json::Value>(text) {
        Ok(v) => Ok(json_from_value(&v)),
        Err(e) => Err(e.to_string()),
    }
}

/// The compact text `serde_json` prints for a value.
pub uninterp spec fn json_text(v: JsonView) -> Seq<char>;

/// Converts the library's model back into a `serde_json::Value`, one node
/// for one node; a number is read back from its text (a text that is not a
/// JSON number, which no parsed value holds, becomes `null`).
#[verifier::external_body]
fn value_from_json(v: &Json) -> serde_json::Value {
    match v {
        Json::Null => serde_json::Value::Null,
        Json::Bool(b) => serde_json::Value::Bool(*b),
        Json::Number(t) => t.parse::<serde_json::Number>().map(serde_json::Value::Number).unwrap_or(
            serde_json::Value::Null,
        ),
        Json::Str(s) => serde_json::Value::String(s.clone()),
        Json::Array(items) => serde_json::Value::Array(items.iter().map(value_from_json).collect()),
        Json::Object(members) => serde_json::Value::Object(
            members.iter().map(|(k, x)| (k.clone(), value_from_json(x))).collect(),
        ),
    }
}

/// Wraps `Value::to_string` (`serde_json::to_string` of a value): the compact
/// JSON text, which depends on the value alone and is named `json_text`.
#[verifier::external_body]
pub fn json_to_text(v: &Json) -> (r: String)
    ensures
        r@ == json_text(v@),
{
    value_from_json(v).to_string()
}

/// The text `serde_json` prints for a value with `{:?}`.
pub uninterp spec fn json_debug_text(v: JsonView) -> Seq<char>;

/// Wraps `Debug` for `serde_json::Value` (`format!("{:?}", value)`): the
/// debug text, which depends on the value alone and is named
/// `json_debug_text`.
#[verifier::external_body]
pub fn json_debug(v: &Json) -> (r: String)
    ensures
        r@ == json_debug_text(v@),
{
    format!("{:?}", value_from_json(v))
}

/// A JSON value as mathematics: the same tree, with sequences for arrays
/// and member lists.
pub enum JsonView {
    Null,
    Bool(bool),
    Number(Seq<char>),
    Str(Seq<char>),
    Array(Seq<JsonView>),
    Object(Seq<(Seq<char>, JsonView)>),
}

impl View for Json {
    type V = JsonView;

    open spec fn view(&self) -> JsonView {
        jv(*self)
    }
}

/// The view of a value.
pub open spec fn jv(j: Json) -> JsonView
    decreases j, 1int,
{
    match j {
        Json::Null => JsonView::Null,
        Json::Bool(b) => JsonView::Bool(b),
        Json::Number(t) => JsonView::Number(t@),
        Json::Str(s) => JsonView::Str(s@),
        Json::Array(items) => JsonView::Array(jv_items(items@)),
        Json::Object(members) => JsonView::Object(jv_members(members@)),
    }
}

/// The views of the items of an array.
pub open spec fn jv_items(s: Seq<Json>) -> Seq<JsonView>
    decreases s, 0int,
{
    if s.len() == 0 {
        Seq::empty()
    } else {
        jv_items(s.drop_last()).push(jv(s.last()))
    }
}

/// The views of the members of an object.
pub open spec fn jv_members(s: Seq<(String, Json)>) -> Seq<(Seq<char>, JsonView)>
    decreases s, 0int,
{
    if s.len() == 0 {
        Seq::empty()
    } else {
        jv_members(s.drop_last()).push((s.last().0@, jv(s.last().1)))
    }
}

/// The views of items, index by index.
pub proof fn lemma_jv_items_index(s: Seq<Json>)
    ensures
        jv_items(s).len() == s.len(),
        forall|j: int| 0 <= j < s.len() ==> #[trigger] jv_items(s)[j] == jv(s[j]),
    decreases s.len(),
{
    if s.len() > 0 {
        lemma_jv_items_index(s.drop_last());
        assert forall|j: int| 0 <= j < s.len() implies #[trigger] jv_items(s)[j] == jv(s[j]) by {
            if j < s.len() - 1 {
                assert(s.drop_last()[j] == s[j]);
            }
        }
    }
}

/// The views of items with one more at the end.
pub proof fn lemma_jv_items_push(s: Seq<Json>, x: Json)
    ensures
        jv_items(s.push(x)) == jv_items(s).push(jv(x)),
{
    assert(s.push(x).drop_last() =~= s);
}

/// The views of two item lists one after the other.
pub proof fn lemma_jv_items_append(a: Seq<Json>, b: Seq<Json>)
    ensures
        jv_items(a + b) == jv_items(a) + jv_items(b),
{
    lemma_jv_items_index(a);
    lemma_jv_items_index(b);
    lemma_jv_items_index(a + b);
    assert(jv_items(a + b) =~= jv_items(a) + jv_items(b));
}

/// The views of members, index by index.
pub proof fn lemma_jv_members_index(s: Seq<(String, Json)>)
    ensures
        jv_members(s).len() == s.len(),
        forall|j: int| 0 <= j < s.len() ==> #[trigger] jv_members(s)[j] == (s[j].0@, jv(s[j].1)),
    decreases s.len(),
{
    if s.len() > 0 {
        lemma_jv_members_index(s.drop_last());
        assert forall|j: int| 0 <= j < s.len() implies #[trigger] jv_members(s)[j] == (s[j].0@, jv(s[j].1)) by {
            if j < s.len() - 1 {
                assert(s.drop_last()[j] == s[j]);
            }
        }
    }
}

/// The value of the first member named `key` among viewed members.
pub open spec fn view_member_get(members: Seq<(Seq<char>, JsonView)>, key: Seq<char>) -> Option<JsonView>
    decreases members.len(),
{
    if members.len() == 0 {
        None
    } else if members[0].0 == key {
        Some(members[0].1)
    } else {
        view_member_get(members.drop_first(), key)
    }
}

/// The member of a viewed object, `None` otherwise.
pub open spec fn view_get(v: JsonView, key: Seq<char>) -> Option<JsonView> {
    match v {
        JsonView::Object(members) => view_member_get(members, key),
        _ => None,
    }
}

/// Looking a member up commutes with taking views of the members.
pub proof fn lemma_member_get_view(ms: Seq<(String, Json)>, key: Seq<char>)
    ensures
        view_member_get(jv_members(ms), key) == match member_get(ms, key) {
            Some(x) => Some(jv(x)),
            None => None::<JsonView>,
        },
    decreases ms.len(),
{
    lemma_jv_members_index(ms);
    if ms.len() > 0 {
        lemma_jv_members_index(ms.drop_first());
        assert(jv_members(ms).drop_first() =~= jv_members(ms.drop_first()));
        lemma_member_get_view(ms.drop_first(), key);
    }
}

/// Looking a member up commutes with taking views.
pub proof fn lemma_view_get(j: Json, key: Seq<char>)
    ensures
        view_get(jv(j), key) == match json_get(j, key) {
            Some(x) => Some(jv(x)),
            None => None::<JsonView>,
        },
{
    if let Json::Object(ms) = j {
        lemma_member_get_view(ms@, key);
    }
}

proof fn lemma_member_get_index(ms: Seq<(String, Json)>, key: Seq<char>)
    ensures
        member_get(ms, key) matches Some(x) ==> exists|i: int| 0 <= i < ms.len() && #[trigger] ms[i].1 == x,
    decreases ms.len(),
{
    if ms.len() > 0 && ms[0].0@ != key {
        lemma_member_get_index(ms.drop_first(), key);
        if member_get(ms, key) is Some {
            let x = member_get(ms, key)->0;
            let i = choose|i: int| 0 <= i < ms.drop_first().len() && #[trigger] ms.drop_first()[i].1 == x;
            assert(ms[i + 1].1 == x);
        }
    } else if ms.len() > 0 {
        assert(ms[0].1 == member_get(ms, key)->0);
    }
}

/// A member of an object is smaller than the object.
pub proof fn lemma_member_get_decreases(v: Json, key: Seq<char>)
    ensures
        json_get(v, key) matches Some(x) ==> decreases_to!(v => x),
{
    if let Json::Object(ms) = v {
        lemma_member_get_index(ms@, key);
        if json_get(v, key) is Some {
            let x = json_get(v, key)->0;
            let i = choose|i: int| 0 <= i < ms@.len() && #[trigger] ms@[i].1 == x;
            assert(decreases_to!(v => ms));
            assert(decreases_to!(ms => ms@[i]));
            assert(decreases_to!(ms@[i] => ms@[i].1));
        }
    }
}

/// A copy of a JSON value.
pub fn copy_json(v: &Json) -> (r: Json)
    ensures
        jv(r) == jv(*v),
    decreases *v,
{
    match v {
        Json::Null => Json::Null,
        Json::Bool(b) => Json::Bool(*b),
        Json::Number(t) => Json::Number(t.clone()),
        Json::Str(s) => Json::Str(s.clone()),
        Json::Array(items) => {
            let mut out: Vec<Json> = Vec::new();
            let mut i: usize = 0;
            while i < items.len()
                invariant
                    i <= items@.len(),
                    *v == Json::Array(*items),
                    jv_items(out@) == jv_items(items@.subrange(0, i as int)),
                decreases items@.len() - i,
            {
                assert(decreases_to!(*v => (*v)->Array_0));
                assert(decreases_to!(*items => items[i as int]));
                let c = copy_json(&items[i]);
                let ghost before = out@;
                out.push(c);
                proof {
                    assert(out@.drop_last() =~= before);
                    let t = items@.subrange(0, i + 1);
                    assert(t.drop_last() =~= items@.subrange(0, i as int));
                }
                i = i + 1;
            }
            assert(items@.subrange(0, items@.len() as int) =~= items@);
            Json::Array(out)
        },
        Json::Object(members) => {
            let mut out: Vec<(String, Json)> = Vec::new();
            let mut i: usize = 0;
            while i < members.len()
                invariant
                    i <= members@.len(),
                    *v == Json::Object(*members),
                    jv_members(out@) == jv_members(members@.subrange(0, i as int)),
                decreases members@.len() - i,
            {
                assert(decreases_to!(*v => (*v)->Object_0));
                assert(decreases_to!(*members => members[i as int]));
                assert(decreases_to!(members[i as int] => members[i as int].1));
                let item = (members[i].0.clone(), copy_json(&members[i].1));
                let ghost before = out@;
                out.push(item);
                proof {
                    assert(out@.drop_last() =~= before);
                    let t = members@.subrange(0, i + 1);
                    assert(t.drop_last() =~= members@.subrange(0, i as int));
                }
                i = i + 1;
            }
            assert(members@.subrange(0, members@.len() as int) =~= members@);
            Json::Object(out)
        },
    }
}

} // verus!
