//! Merging the fragments of a streamed tool call: ids, names and types are
//! taken from the newest fragment that has them; arguments are merged as
//! objects or concatenated as text.
use vstd::prelude::*;
use crate::json::{Json, JsonView, copy_json, json_text, json_to_text, jv, jv_members, view_member_get};
use crate::request::{ToolCall, ToolCallView};
use crate::text::{chars_of, concat2, opt_seq, starts_with, str_starts_with};
use crate::textmap::{KeyOrder, key_order, seq_lt};

verus! {

// ----- object members -----
/// The first index holding `key`.
pub open spec fn key_index(m: Seq<(Seq<char>, JsonView)>, key: Seq<char>) -> Option<int>
    decreases m.len(),
{
    if m.len() == 0 {
        None
    } else if m[0].0 == key {
        Some(0)
    } else {
        match key_index(m.drop_first(), key) {
            Some(i) => Some(i + 1),
            None => None,
        }
    }
}

/// Where a new member named `key` goes: before the first member whose name
/// `key` precedes, so that members ordered by name stay ordered.
pub open spec fn insert_position(m: Seq<(Seq<char>, JsonView)>, key: Seq<char>) -> int
    decreases m.len(),
{
    if m.len() == 0 {
        0
    } else if seq_lt(key, m[0].0) {
        0
    } else {
        1 + insert_position(m.drop_first(), key)
    }
}

/// `Map::insert` on an object whose members are ordered by name, as
/// `serde_json`'s map keeps them: the member named `key` gets the value, or
/// a new member is added in its place in name order.
pub open spec fn members_insert(m: Seq<(Seq<char>, JsonView)>, key: Seq<char>, v: JsonView) -> Seq<(Seq<char>, JsonView)> {
    match key_index(m, key) {
        Some(i) => m.update(i, (key, v)),
        None => m.insert(insert_position(m, key), (key, v)),
    }
}

pub proof fn lemma_insert_position(m: Seq<(Seq<char>, JsonView)>, key: Seq<char>)
    ensures
        0 <= insert_position(m, key) <= m.len(),
        forall|j: int| 0 <= j < insert_position(m, key) ==> !seq_lt(key, #[trigger] m[j].0),
        insert_position(m, key) < m.len() ==> seq_lt(key, m[insert_position(m, key)].0),
    decreases m.len(),
{
    if m.len() > 0 && !seq_lt(key, m[0].0) {
        lemma_insert_position(m.drop_first(), key);
        assert forall|j: int| 1 <= j < m.len() implies m[j] == m.drop_first()[j - 1] by {}
    }
}

/// The members of `cur` with those of `inc` inserted in order.
pub open spec fn members_merge(cur: Seq<(Seq<char>, JsonView)>, inc: Seq<(Seq<char>, JsonView)>) -> Seq<(Seq<char>, JsonView)>
    decreases inc.len(),
{
    if inc.len() == 0 {
        cur
    } else {
        members_merge(members_insert(cur, inc[0].0, inc[0].1), inc.drop_first())
    }
}

/// The value of the last member named `key`.
pub open spec fn last_member_value(m: Seq<(Seq<char>, JsonView)>, key: Seq<char>) -> Option<JsonView>
    decreases m.len(),
{
    if m.len() == 0 {
        None
    } else {
        match last_member_value(m.drop_first(), key) {
            Some(v) => Some(v),
            None => if m[0].0 == key {
                Some(m[0].1)
            } else {
                None
            },
        }
    }
}

pub proof fn lemma_key_index(m: Seq<(Seq<char>, JsonView)>, key: Seq<char>)
    ensures
        match key_index(m, key) {
            Some(i) => 0 <= i < m.len() && m[i].0 == key && forall|j: int| 0 <= j < i ==> m[j].0 != key,
            None => forall|j: int| 0 <= j < m.len() ==> m[j].0 != key,
        },
    decreases m.len(),
{
    if m.len() > 0 && m[0].0 != key {
        lemma_key_index(m.drop_first(), key);
        assert forall|j: int| 1 <= j < m.len() implies m[j] == m.drop_first()[j - 1] by {}
    }
}

pub proof fn lemma_member_value_at(m: Seq<(Seq<char>, JsonView)>, key: Seq<char>)
    ensures
        view_member_get(m, key) == match key_index(m, key) {
            Some(i) => Some(m[i].1),
            None => None,
        },
    decreases m.len(),
{
    if m.len() > 0 && m[0].0 != key {
        lemma_member_value_at(m.drop_first(), key);
        lemma_key_index(m.drop_first(), key);
    }
}

pub proof fn lemma_member_value_insert(m: Seq<(Seq<char>, JsonView)>, key: Seq<char>, v: JsonView, k: Seq<char>)
    ensures
        view_member_get(members_insert(m, key, v), k) == if k == key {
            Some(v)
        } else {
            view_member_get(m, k)
        },
{
    let n = members_insert(m, key, v);
    lemma_key_index(m, key);
    lemma_key_index(m, k);
    lemma_key_index(n, k);
    lemma_member_value_at(m, k);
    lemma_member_value_at(n, k);
    match key_index(m, key) {
        Some(i) => {
            match key_index(n, k) {
                Some(a) => {
                    if k == key {
                        if a < i {
                            assert(n[a] == m[a]);
                        } else if a > i {
                            assert(n[i].0 == key);
                        }
                    } else {
                        assert(a != i);
                        assert(n[a] == m[a]);
                        match key_index(m, k) {
                            Some(b) => {
                                if b < a {
                                    assert(n[b] == m[b]);
                                } else if b > a {
                                    assert(m[a].0 == k);
                                }
                            },
                            None => {
                                assert(m[a].0 == k);
                            },
                        }
                    }
                },
                None => {
                    if k == key {
                        assert(n[i].0 == key);
                    } else {
                        match key_index(m, k) {
                            Some(b) => {
                                assert(n[b] == m[b]);
                            },
                            None => {},
                        }
                    }
                },
            }
        },
        None => {
            let p = insert_position(m, key);
            lemma_insert_position(m, key);
            assert(n.len() == m.len() + 1);
            assert(n[p] == (key, v));
            assert(forall|j: int| 0 <= j < p ==> n[j] == m[j]);
            assert(forall|j: int| p < j < n.len() ==> n[j] == m[j - 1]);
            if k == key {
                match key_index(n, k) {
                    Some(a) => {
                        if a < p {
                            assert(m[a].0 == key);
                        } else if a > p {
                            assert(n[p].0 == k);
                        }
                    },
                    None => {
                        assert(n[p].0 == k);
                    },
                }
            } else {
                match key_index(m, k) {
                    Some(b) => {
                        let bb = if b < p { b } else { b + 1 };
                        assert(n[bb] == m[b]);
                        match key_index(n, k) {
                            Some(a) => {
                                if a < bb {
                                    if a < p {
                                        assert(m[a].0 == k);
                                    } else if a > p {
                                        assert(m[a - 1].0 == k);
                                    }
                                } else if a > bb {
                                    assert(n[bb].0 == k);
                                }
                            },
                            None => {
                                assert(n[bb].0 == k);
                            },
                        }
                    },
                    None => {
                        match key_index(n, k) {
                            Some(a) => {
                                if a < p {
                                    assert(m[a].0 == k);
                                } else if a > p {
                                    assert(m[a - 1].0 == k);
                                }
                            },
                            None => {},
                        }
                    },
                }
            }
        },
    }
}

/// Merging objects: a key the incoming object has takes its (last) value
/// there; every other key keeps its current value.
pub proof fn lemma_members_merge_lookup(cur: Seq<(Seq<char>, JsonView)>, inc: Seq<(Seq<char>, JsonView)>, k: Seq<char>)
    ensures
        view_member_get(members_merge(cur, inc), k) == match last_member_value(inc, k) {
            Some(v) => Some(v),
            None => view_member_get(cur, k),
        },
    decreases inc.len(),
{
    if inc.len() > 0 {
        let next = members_insert(cur, inc[0].0, inc[0].1);
        lemma_members_merge_lookup(next, inc.drop_first(), k);
        lemma_member_value_insert(cur, inc[0].0, inc[0].1, k);
    }
}

// ----- arguments -----
/// The arguments and raw argument text after merging an incoming fragment:
/// objects merge key by key; text is appended, unless a final fragment
/// already starts with what was accumulated, in which case it replaces it;
/// anything else replaces the current arguments.
pub open spec fn merge_arguments_spec(
    cur: JsonView,
    cur_raw: Option<Seq<char>>,
    inc: JsonView,
    inc_raw: Option<Seq<char>>,
    final_fragment: bool,
) -> (JsonView, Option<Seq<char>>) {
    match (cur, inc) {
        (JsonView::Object(c), JsonView::Object(i)) => {
            let args = JsonView::Object(members_merge(c, i));
            (args, match inc_raw {
                Some(r) => Some(r),
                None => match cur_raw {
                    Some(r) => Some(r),
                    None => Some(json_text(args)),
                },
            })
        },
        (JsonView::Str(c), JsonView::Str(i)) => {
            let m = if final_fragment && starts_with(i, c) {
                i
            } else {
                c + i
            };
            (JsonView::Str(m), Some(m))
        },
        (_, JsonView::Str(i)) => {
            let cr = match cur_raw {
                Some(r) => r,
                None => json_text(cur),
            };
            let m = if final_fragment && starts_with(i, cr) {
                i
            } else {
                cr + i
            };
            (JsonView::Str(m), Some(m))
        },
        (_, _) => (inc, match inc_raw {
            Some(r) => Some(r),
            None => Some(json_text(inc)),
        }),
    }
}

pub fn find_member(m: &Vec<(String, Json)>, key: &str) -> (r: Option<usize>)
    ensures
        match r {
            Some(i) => key_index(jv_members(m@), key@) == Some(i as int) && i < m@.len(),
            None => key_index(jv_members(m@), key@) is None,
        },
{
    proof {
        crate::json::lemma_jv_members_index(m@);
        lemma_key_index(jv_members(m@), key@);
    }
    let mut i: usize = 0;
    while i < m.len()
        invariant
            i <= m@.len(),
            jv_members(m@).len() == m@.len(),
            forall|j: int| 0 <= j < m@.len() ==> #[trigger] jv_members(m@)[j] == (m@[j].0@, jv(m@[j].1)),
            forall|j: int| 0 <= j < i ==> jv_members(m@)[j].0 != key@,
            match key_index(jv_members(m@), key@) {
                Some(w) => 0 <= w < m@.len() && jv_members(m@)[w].0 == key@ && forall|j: int|
                    0 <= j < w ==> jv_members(m@)[j].0 != key@,
                None => forall|j: int| 0 <= j < m@.len() ==> jv_members(m@)[j].0 != key@,
            },
        decreases m@.len() - i,
    {
        if crate::text::str_eq(m[i].0.as_str(), key) {
            assert(jv_members(m@)[i as int].0 == key@);
            proof {
                match key_index(jv_members(m@), key@) {
                    Some(w) => {
                        if w < i {
                            assert(jv_members(m@)[w].0 != key@);
                        }
                        if w > i {
                            assert(jv_members(m@)[i as int].0 != key@);
                        }
                    },
                    None => {
                        assert(jv_members(m@)[i as int].0 != key@);
                    },
                }
            }
            return Some(i);
        }
        assert(jv_members(m@)[i as int].0 != key@);
        i = i + 1;
    }
    proof {
        match key_index(jv_members(m@), key@) {
            Some(w) => {
                assert(jv_members(m@)[w].0 != key@);
            },
            None => {},
        }
    }
    None
}

/// Gives the member named `key` the value, or adds the member (`Map::insert`).
pub fn insert_member(members: &mut Vec<(String, Json)>, key: String, value: Json)
    ensures
        jv_members(final(members)@) == members_insert(jv_members(old(members)@), key@, jv(value)),
{
    let ghost before = jv_members(members@);
    let ghost kv = key@;
    let ghost vv = jv(value);
    match find_member(members, key.as_str()) {
        Some(at) => {
            let ghost old_m = members@;
            members.set(at, (key, value));
            proof {
                crate::json::lemma_jv_members_index(old_m);
                crate::json::lemma_jv_members_index(members@);
                assert(jv_members(members@) =~= before.update(at as int, (kv, vv)));
            }
        },
        None => {
            let ghost old_m = members@;
            proof {
                crate::json::lemma_jv_members_index(old_m);
                lemma_insert_position(before, kv);
            }
            let kc = chars_of(key.as_str());
            let mut p: usize = 0;
            while p < members.len()
                invariant
                    p <= members@.len(),
                    members@ == old_m,
                    before == jv_members(old_m),
                    before.len() == old_m.len(),
                    kc@ == kv,
                    forall|j: int| 0 <= j < old_m.len() ==> #[trigger] before[j] == (old_m[j].0@, jv(old_m[j].1)),
                    forall|j: int| 0 <= j < p ==> !seq_lt(kv, #[trigger] before[j].0),
                    0 <= insert_position(before, kv) <= before.len(),
                    forall|j: int| 0 <= j < insert_position(before, kv) ==> !seq_lt(kv, #[trigger] before[j].0),
                    insert_position(before, kv) < before.len() ==> seq_lt(kv, before[insert_position(before, kv)].0),
                ensures
                    p <= members@.len(),
                    forall|j: int| 0 <= j < p ==> !seq_lt(kv, #[trigger] before[j].0),
                    p < members@.len() ==> seq_lt(kv, before[p as int].0),
                decreases members@.len() - p,
            {
                let mc = chars_of(members[p].0.as_str());
                match key_order(&kc, &mc) {
                    KeyOrder::Less => {
                        assert(before[p as int].0 == mc@);
                        break;
                    },
                    _ => {
                        assert(before[p as int].0 == mc@);
                    },
                }
                p = p + 1;
            }
            proof {
                let ip = insert_position(before, kv);
                if ip < p {
                    assert(!seq_lt(kv, before[ip].0));
                }
                if ip > p {
                    assert(!seq_lt(kv, before[p as int].0));
                }
                assert(ip == p);
            }
            members.insert(p, (key, value));
            proof {
                crate::json::lemma_jv_members_index(members@);
                assert(jv_members(members@) =~= before.insert(p as int, (kv, vv)));
            }
        },
    }
}

fn merge_members(cur: &Vec<(String, Json)>, inc: &Vec<(String, Json)>) -> (r: Vec<(String, Json)>)
    ensures
        jv_members(r@) == members_merge(jv_members(cur@), jv_members(inc@)),
{
    let mut out: Vec<(String, Json)> = Vec::new();
    let mut i: usize = 0;
    proof {
        crate::json::lemma_jv_members_index(cur@);
    }
    while i < cur.len()
        invariant
            i <= cur@.len(),
            jv_members(out@) == jv_members(cur@).subrange(0, i as int),
            jv_members(cur@).len() == cur@.len(),
            forall|j: int| 0 <= j < cur@.len() ==> #[trigger] jv_members(cur@)[j] == (cur@[j].0@, jv(cur@[j].1)),
        decreases cur@.len() - i,
    {
        let item = (cur[i].0.clone(), copy_json(&cur[i].1));
        let ghost before = out@;
        out.push(item);
        proof {
            assert(out@.drop_last() =~= before);
            assert(jv_members(cur@)[i as int] == (cur@[i as int].0@, jv(cur@[i as int].1)));
            assert(jv_members(out@) =~= jv_members(cur@).subrange(0, i + 1));
        }
        i = i + 1;
    }
    assert(jv_members(cur@).subrange(0, cur@.len() as int) =~= jv_members(cur@));
    let ghost incv = jv_members(inc@);
    proof {
        crate::json::lemma_jv_members_index(inc@);
        assert(incv.subrange(0, incv.len() as int) =~= incv);
    }
    let mut k: usize = 0;
    while k < inc.len()
        invariant
            k <= inc@.len(),
            incv == jv_members(inc@),
            incv.len() == inc@.len(),
            forall|j: int| 0 <= j < inc@.len() ==> #[trigger] incv[j] == (inc@[j].0@, jv(inc@[j].1)),
            members_merge(jv_members(cur@), incv) == members_merge(jv_members(out@), incv.subrange(k as int, incv.len() as int)),
        decreases inc@.len() - k,
    {
        let ghost rest = incv.subrange(k as int, incv.len() as int);
        assert(rest[0] == incv[k as int]);
        assert(rest.drop_first() =~= incv.subrange(k + 1, incv.len() as int));
        let ghost before = jv_members(out@);
        let value = copy_json(&inc[k].1);
        let key = inc[k].0.clone();
        assert(key@ == inc@[k as int].0@ && jv(value) == jv(inc@[k as int].1));
        insert_member(&mut out, key, value);
        k = k + 1;
    }
    out
}

fn starts_with_text(s: &str, prefix: &str) -> (r: bool)
    ensures
        r == starts_with(s@, prefix@),
{
    str_starts_with(s, prefix)
}

/// The arguments and raw argument text after merging an incoming fragment.
pub fn merge_tool_arguments(
    current_arguments: &Json,
    current_raw: Option<String>,
    incoming_arguments: &Json,
    incoming_raw: Option<String>,
    final_fragment: bool,
) -> (r: (Json, Option<String>))
    ensures
        (r.0@, opt_seq(r.1)) == merge_arguments_spec(
            current_arguments@,
            opt_seq(current_raw),
            incoming_arguments@,
            opt_seq(incoming_raw),
            final_fragment,
        ),
{
    match (current_arguments, incoming_arguments) {
        (Json::Object(c), Json::Object(i)) => {
            let args = Json::Object(merge_members(c, i));
            let raw = match incoming_raw {
                Some(r) => Some(r),
                None => match current_raw {
                    Some(r) => Some(r),
                    None => Some(json_to_text(&args)),
                },
            };
            (args, raw)
        },
        (Json::Str(c), Json::Str(i)) => {
            let merged = if final_fragment && starts_with_text(i.as_str(), c.as_str()) {
                i.clone()
            } else {
                concat2(c.as_str(), i.as_str())
            };
            let raw = merged.clone();
            (Json::Str(merged), Some(raw))
        },
        (_, Json::Str(i)) => {
            let cr = match current_raw {
                Some(r) => r,
                None => json_to_text(current_arguments),
            };
            let merged = if final_fragment && starts_with_text(i.as_str(), cr.as_str()) {
                i.clone()
            } else {
                concat2(cr.as_str(), i.as_str())
            };
            let raw = merged.clone();
            (Json::Str(merged), Some(raw))
        },
        (_, _) => {
            let raw = match incoming_raw {
                Some(r) => Some(r),
                None => Some(json_to_text(incoming_arguments)),
            };
            (copy_json(incoming_arguments), raw)
        },
    }
}

/// A tool call after merging an incoming fragment into it.
pub open spec fn merge_tool_calls_spec(cur: ToolCallView, inc: ToolCallView, final_fragment: bool) -> ToolCallView {
    let args = merge_arguments_spec(cur.arguments, cur.raw_arguments, inc.arguments, inc.raw_arguments, final_fragment);
    ToolCallView {
        id: if inc.id.len() == 0 {
            cur.id
        } else {
            inc.id
        },
        name: if inc.name.len() == 0 {
            cur.name
        } else {
            inc.name
        },
        arguments: args.0,
        raw_arguments: args.1,
        call_type: if inc.call_type.len() == 0 {
            cur.call_type
        } else {
            inc.call_type
        },
    }
}

/// A tool call after merging an incoming fragment into it: the fragment's
/// id, name and type where it has them, and the merged arguments.
pub fn merge_tool_calls(current: ToolCall, incoming: ToolCall, final_fragment: bool) -> (r: ToolCall)
    ensures
        r@ == merge_tool_calls_spec(current@, incoming@, final_fragment),
{
    let ghost cv = current@;
    let ghost iv = incoming@;
    let (arguments, raw_arguments) = merge_tool_arguments(
        &current.arguments,
        current.raw_arguments,
        &incoming.arguments,
        incoming.raw_arguments,
        final_fragment,
    );
    let id = if incoming.id.unicode_len() == 0 {
        current.id
    } else {
        incoming.id
    };
    let name = if incoming.name.unicode_len() == 0 {
        current.name
    } else {
        incoming.name
    };
    let call_type = if incoming.call_type.unicode_len() == 0 {
        current.call_type
    } else {
        incoming.call_type
    };
    ToolCall { id, name, arguments, raw_arguments, call_type }
}

/// A streamed tool call after merging an incoming fragment, the fragment
/// itself when there is nothing yet.
pub fn merge_tool_calls_for_stream(current: Option<ToolCall>, incoming: ToolCall, final_fragment: bool) -> (r: ToolCall)
    ensures
        r@ == match current {
            Some(c) => merge_tool_calls_spec(c@, incoming@, final_fragment),
            None => incoming@,
        },
{
    match current {
        Some(c) => merge_tool_calls(c, incoming, final_fragment),
        None => incoming,
    }
}

/// Text fragments accumulate: merging a fragment appends it, and a final
/// fragment that repeats everything accumulated so far replaces it.
pub proof fn lemma_text_fragments(c: Seq<char>, i: Seq<char>, final_fragment: bool)
    ensures
        merge_arguments_spec(JsonView::Str(c), None, JsonView::Str(i), None, final_fragment).0 == JsonView::Str(
            if final_fragment && starts_with(i, c) {
                i
            } else {
                c + i
            },
        ),
        final_fragment && starts_with(i, c) ==> merge_arguments_spec(JsonView::Str(c), None, JsonView::Str(i), None, true).0
            == JsonView::Str(i),
        !final_fragment ==> merge_arguments_spec(JsonView::Str(c), None, JsonView::Str(i), None, false).0 == JsonView::Str(c + i),
{
}

} // verus!
