//! Merging JSON objects into request bodies: deep merges where objects meet,
//! shallow inserts, and fields the adapter protects from options.
use vstd::prelude::*;
use crate::json::{Json, JsonView, copy_json, jv, jv_items, jv_members, view_member_get};
use crate::tool_merge::{find_member, insert_member, lemma_member_value_at, members_insert};
use crate::url::texts_view;

verus! {

// ----- deep merge -----
/// An overlay merged into a base: where both are objects, each member of
/// the overlay is merged into the base's member of that name, or added;
/// anywhere else the overlay wins.
pub open spec fn deep_merge_spec(base: JsonView, overlay: Json) -> JsonView
    decreases overlay, 1int,
{
    match overlay {
        Json::Object(om) => match base {
            JsonView::Object(bm) => JsonView::Object(merge_members_deep(bm, om@)),
            _ => jv(overlay),
        },
        _ => jv(overlay),
    }
}

/// The members of an overlay merged, one by one, into a base's members.
pub open spec fn merge_members_deep(bm: Seq<(Seq<char>, JsonView)>, om: Seq<(String, Json)>) -> Seq<(Seq<char>, JsonView)>
    decreases om, 0int,
{
    if om.len() == 0 {
        bm
    } else {
        let b1 = merge_members_deep(bm, om.drop_last());
        let k = om.last().0@;
        members_insert(
            b1,
            k,
            match view_member_get(b1, k) {
                Some(existing) => deep_merge_spec(existing, om.last().1),
                None => jv(om.last().1),
            },
        )
    }
}

/// The deep merge of views: where both are objects, each member of the
/// overlay is merged into the base's member of that name, or added; any
/// other overlay replaces the base.
pub open spec fn deep_merge_view(base: JsonView, overlay: JsonView) -> JsonView
    decreases overlay, 1int,
{
    match overlay {
        JsonView::Object(om) => match base {
            JsonView::Object(bm) => JsonView::Object(merge_members_view(bm, om)),
            _ => overlay,
        },
        _ => overlay,
    }
}

/// The members of an overlay view merged, one by one, into a base's members.
pub open spec fn merge_members_view(bm: Seq<(Seq<char>, JsonView)>, om: Seq<(Seq<char>, JsonView)>) -> Seq<(Seq<char>, JsonView)>
    decreases om, 0int,
{
    if om.len() == 0 {
        bm
    } else {
        let b1 = merge_members_view(bm, om.drop_last());
        let k = om.last().0;
        members_insert(
            b1,
            k,
            match view_member_get(b1, k) {
                Some(existing) => deep_merge_view(existing, om.last().1),
                None => om.last().1,
            },
        )
    }
}

/// The deep merge depends on the overlay's view alone.
pub proof fn lemma_deep_merge_view(base: JsonView, overlay: Json)
    ensures
        deep_merge_spec(base, overlay) == deep_merge_view(base, jv(overlay)),
    decreases overlay, 1int,
{
    if let Json::Object(om) = overlay {
        if let JsonView::Object(bm) = base {
            assert(decreases_to!(overlay => om));
            lemma_merge_members_view(bm, om@);
        }
    }
}

proof fn lemma_merge_members_view(bm: Seq<(Seq<char>, JsonView)>, om: Seq<(String, Json)>)
    ensures
        merge_members_deep(bm, om) == merge_members_view(bm, jv_members(om)),
    decreases om, 0int,
{
    if om.len() > 0 {
        let jm = jv_members(om);
        assert(jm.drop_last() == jv_members(om.drop_last()));
        assert(jm.last() == (om.last().0@, jv(om.last().1)));
        lemma_merge_members_view(bm, om.drop_last());
        let b1 = merge_members_deep(bm, om.drop_last());
        if let Some(existing) = view_member_get(b1, om.last().0@) {
            assert(decreases_to!(om => om[om.len() - 1]));
            assert(decreases_to!(om[om.len() - 1] => om[om.len() - 1].1));
            lemma_deep_merge_view(existing, om.last().1);
        }
    }
}

/// Merges an overlay into a base.
pub fn deep_merge(base: Json, overlay: &Json) -> (r: Json)
    ensures
        jv(r) == deep_merge_spec(jv(base), *overlay),
    decreases *overlay,
{
    let members = match overlay {
        Json::Object(om) => om,
        _ => return copy_json(overlay),
    };
    let mut bm = match base {
        Json::Object(bm) => bm,
        _ => return copy_json(overlay),
    };
    let ghost b0 = jv_members(bm@);
    let mut i: usize = 0;
    assert(members@.subrange(0, 0) =~= Seq::<(String, Json)>::empty());
    while i < members.len()
        invariant
            i <= members@.len(),
            *overlay == Json::Object(*members),
            jv_members(bm@) == merge_members_deep(b0, members@.subrange(0, i as int)),
        decreases members@.len() - i,
    {
        assert(decreases_to!(*overlay => (*overlay)->Object_0));
        assert(decreases_to!(*members => members[i as int]));
        assert(decreases_to!(members[i as int] => members[i as int].1));
        proof {
            let t = members@.subrange(0, i + 1);
            assert(t.drop_last() =~= members@.subrange(0, i as int));
            assert(t.last() == members@[i as int]);
            lemma_member_value_at(jv_members(bm@), members@[i as int].0@);
            crate::json::lemma_jv_members_index(bm@);
        }
        let key = members[i].0.clone();
        let merged = match find_member(&bm, key.as_str()) {
            Some(at) => deep_merge(copy_json(&bm[at].1), &members[i].1),
            None => copy_json(&members[i].1),
        };
        insert_member(&mut bm, key, merged);
        i = i + 1;
    }
    assert(members@.subrange(0, members@.len() as int) =~= members@);
    Json::Object(bm)
}

/// Merges protected fields into a target, keeping the target's other
/// members: the same merge as `deep_merge`, done in place.
pub fn deep_merge_protected_object(target: &mut Json, protected: &Json)
    ensures
        jv(*final(target)) == deep_merge_spec(jv(*old(target)), *protected),
{
    let current = copy_json(&*target);
    *target = deep_merge(current, protected);
}

// ----- shallow inserts -----
/// Members inserted one by one.
pub open spec fn insert_all(tm: Seq<(Seq<char>, JsonView)>, pm: Seq<(Seq<char>, JsonView)>) -> Seq<(Seq<char>, JsonView)>
    decreases pm.len(),
{
    if pm.len() == 0 {
        tm
    } else {
        members_insert(insert_all(tm, pm.drop_last()), pm.last().0, pm.last().1)
    }
}

/// A target with the members of a protected object inserted, when both are
/// objects; unchanged otherwise.
pub open spec fn deep_insert_spec(target: JsonView, protected: JsonView) -> JsonView {
    match (target, protected) {
        (JsonView::Object(tm), JsonView::Object(pm)) => JsonView::Object(insert_all(tm, pm)),
        _ => target,
    }
}

/// Inserts the members of a protected object into a target object.
pub fn deep_insert(target: &mut Json, protected: &Json)
    ensures
        jv(*final(target)) == deep_insert_spec(jv(*old(target)), jv(*protected)),
{
    let pm = match protected {
        Json::Object(pm) => pm,
        _ => return,
    };
    let mut tm = match copy_json(&*target) {
        Json::Object(tm) => tm,
        _ => return,
    };
    let ghost t0 = jv_members(tm@);
    let ghost pv = jv_members(pm@);
    proof {
        crate::json::lemma_jv_members_index(pm@);
    }
    let mut i: usize = 0;
    assert(pv.subrange(0, 0) =~= Seq::<(Seq<char>, JsonView)>::empty());
    while i < pm.len()
        invariant
            i <= pm@.len(),
            pv == jv_members(pm@),
            pv.len() == pm@.len(),
            forall|j: int| 0 <= j < pm@.len() ==> #[trigger] pv[j] == (pm@[j].0@, jv(pm@[j].1)),
            jv_members(tm@) == insert_all(t0, pv.subrange(0, i as int)),
        decreases pm@.len() - i,
    {
        proof {
            let t = pv.subrange(0, i + 1);
            assert(t.drop_last() =~= pv.subrange(0, i as int));
            assert(t.last() == pv[i as int]);
        }
        insert_member(&mut tm, pm[i].0.clone(), copy_json(&pm[i].1));
        i = i + 1;
    }
    assert(pv.subrange(0, pv.len() as int) =~= pv);
    *target = Json::Object(tm);
}

/// A target with protected members inserted; under the recursive keys, an
/// object member meeting an object is merged deeply instead.
pub open spec fn recursive_insert_members(tm: Seq<(Seq<char>, JsonView)>, pm: Seq<(String, Json)>, keys: Seq<Seq<char>>) -> Seq<(Seq<char>, JsonView)>
    decreases pm.len(),
{
    if pm.len() == 0 {
        tm
    } else {
        let t1 = recursive_insert_members(tm, pm.drop_last(), keys);
        let k = pm.last().0@;
        let v = pm.last().1;
        if keys.contains(k) && (view_member_get(t1, k) matches Some(existing) && existing is Object) && v is Object {
            members_insert(t1, k, deep_merge_spec(view_member_get(t1, k)->0, v))
        } else {
            members_insert(t1, k, jv(v))
        }
    }
}

/// A target with protected members inserted, merging deeply under the
/// recursive keys; unchanged unless both are objects.
pub open spec fn recursive_insert_spec(target: JsonView, protected: Json, keys: Seq<Seq<char>>) -> JsonView {
    match (target, protected) {
        (JsonView::Object(tm), Json::Object(pm)) => JsonView::Object(recursive_insert_members(tm, pm@, keys)),
        _ => target,
    }
}

fn key_listed(keys: &Vec<&str>, key: &str) -> (r: bool)
    ensures
        r == texts_view(keys@).contains(key@),
{
    let mut i: usize = 0;
    while i < keys.len()
        invariant
            i <= keys@.len(),
            forall|j: int| 0 <= j < i ==> keys@[j]@ != key@,
        decreases keys@.len() - i,
    {
        if crate::text::str_eq(keys[i], key) {
            assert(texts_view(keys@)[i as int] == key@);
            return true;
        }
        i = i + 1;
    }
    assert forall|j: int| 0 <= j < texts_view(keys@).len() implies texts_view(keys@)[j] != key@ by {
        assert(texts_view(keys@)[j] == keys@[j]@);
    }
    false
}

/// Inserts protected members into a target, merging deeply under the
/// recursive keys.
pub fn deep_insert_with_recursive_keys(target: &mut Json, protected: &Json, recursive_keys: &Vec<&str>)
    ensures
        jv(*final(target)) == recursive_insert_spec(jv(*old(target)), *protected, texts_view(recursive_keys@)),
{
    let pm = match protected {
        Json::Object(pm) => pm,
        _ => return,
    };
    let mut tm = match copy_json(&*target) {
        Json::Object(tm) => tm,
        _ => return,
    };
    let ghost t0 = jv_members(tm@);
    let ghost kv = texts_view(recursive_keys@);
    let mut i: usize = 0;
    assert(pm@.subrange(0, 0) =~= Seq::<(String, Json)>::empty());
    while i < pm.len()
        invariant
            i <= pm@.len(),
            kv == texts_view(recursive_keys@),
            jv_members(tm@) == recursive_insert_members(t0, pm@.subrange(0, i as int), kv),
        decreases pm@.len() - i,
    {
        proof {
            let t = pm@.subrange(0, i + 1);
            assert(t.drop_last() =~= pm@.subrange(0, i as int));
            assert(t.last() == pm@[i as int]);
            lemma_member_value_at(jv_members(tm@), pm@[i as int].0@);
            crate::json::lemma_jv_members_index(tm@);
        }
        let key = pm[i].0.clone();
        let value = &pm[i].1;
        let value_is_object = match value {
            Json::Object(_) => true,
            _ => false,
        };
        let mut merged: Option<Json> = None;
        if key_listed(recursive_keys, key.as_str()) && value_is_object {
            match find_member(&tm, key.as_str()) {
                Some(at) => {
                    match &tm[at].1 {
                        Json::Object(_) => {
                            merged = Some(deep_merge(copy_json(&tm[at].1), value));
                        },
                        _ => {},
                    }
                },
                None => {},
            }
        }
        match merged {
            Some(m) => insert_member(&mut tm, key, m),
            None => insert_member(&mut tm, key, copy_json(value)),
        }
        i = i + 1;
    }
    assert(pm@.subrange(0, pm@.len() as int) =~= pm@);
    *target = Json::Object(tm);
}

// ----- array fields -----
/// A body with items appended to an array field: added to an existing
/// array, or put in place of whatever the field held; nothing changes for
/// no items or a body that is not an object.
pub open spec fn append_array_field_spec(body: JsonView, key: Seq<char>, items: Seq<JsonView>) -> JsonView {
    if items.len() == 0 {
        body
    } else {
        match body {
            JsonView::Object(ms) => match crate::json::view_member_get(ms, key) {
                Some(JsonView::Array(existing)) => JsonView::Object(members_insert(ms, key, JsonView::Array(existing + items))),
                _ => JsonView::Object(members_insert(ms, key, JsonView::Array(items))),
            },
            _ => body,
        }
    }
}

/// Appends items to an array field of a body.
pub fn append_array_field(body: &mut Json, key: &str, items: Vec<Json>)
    ensures
        jv(*final(body)) == append_array_field_spec(jv(*old(body)), key@, jv_items(items@)),
{
    if items.len() == 0 {
        return;
    }
    let mut ms = match copy_json(&*body) {
        Json::Object(ms) => ms,
        _ => return,
    };
    proof {
        lemma_member_value_at(jv_members(ms@), key@);
        crate::json::lemma_jv_members_index(ms@);
    }
    let ghost items0 = items@;
    let mut items = items;
    let combined = match find_member(&ms, key) {
        Some(at) => match &ms[at].1 {
            Json::Array(existing) => {
                let mut all = crate::anthropic_messages::copy_items(existing);
                let ghost a0 = all@;
                all.append(&mut items);
                proof {
                    crate::json::lemma_jv_items_append(a0, items0);
                }
                all
            },
            _ => items,
        },
        None => items,
    };
    insert_member(&mut ms, crate::text::owned(key), Json::Array(combined));
    *body = Json::Object(ms);
}

} // verus!
