//! Canonical JSON text: compact, with the members of every object ordered
//! by name, so that a value gives the same text whatever order its members
//! were written in.
use vstd::prelude::*;
use crate::json::{Json, JsonView, json_text, json_to_text, jv, jv_items, jv_members};
use crate::text::{chars_of, concat3, owned};
use crate::textmap::{KeyOrder, key_order, seq_lt};

verus! {

// ----- a stable sort of named entries -----
/// `e` put into `s` after every entry whose name does not come after its
/// own, names compared as `String`s compare (code point by code point, which
/// for UTF-8 is the order of the bytes).
pub open spec fn insert_entry(s: Seq<(Seq<char>, Seq<char>)>, e: (Seq<char>, Seq<char>)) -> Seq<(Seq<char>, Seq<char>)>
    decreases s.len(),
{
    if s.len() == 0 {
        seq![e]
    } else if seq_lt(e.0, s.last().0) {
        insert_entry(s.drop_last(), e).push(s.last())
    } else {
        s.push(e)
    }
}

/// Entries sorted by name; entries of the same name keep their order.
pub open spec fn sort_entries(s: Seq<(Seq<char>, Seq<char>)>) -> Seq<(Seq<char>, Seq<char>)>
    decreases s.len(),
{
    if s.len() == 0 {
        s
    } else {
        insert_entry(sort_entries(s.drop_last()), s.last())
    }
}

/// Entries as texts.
pub open spec fn entries_view(s: Seq<(String, String)>) -> Seq<(Seq<char>, Seq<char>)> {
    s.map_values(|e: (String, String)| (e.0@, e.1@))
}

proof fn lemma_insert_at(s: Seq<(Seq<char>, Seq<char>)>, e: (Seq<char>, Seq<char>), j: int)
    requires
        0 <= j <= s.len(),
        forall|k: int| j <= k < s.len() ==> seq_lt(e.0, #[trigger] s[k].0),
        j > 0 ==> !seq_lt(e.0, s[j - 1].0),
    ensures
        insert_entry(s, e) == s.subrange(0, j) + seq![e] + s.subrange(j, s.len() as int),
    decreases s.len(),
{
    if s.len() == 0 {
        assert(s.subrange(0, j) + seq![e] + s.subrange(j, s.len() as int) =~= seq![e]);
    } else if j == s.len() {
        assert(s.subrange(0, j) + seq![e] + s.subrange(j, s.len() as int) =~= s.push(e));
    } else {
        let t = s.drop_last();
        assert(seq_lt(e.0, s[s.len() - 1].0));
        assert forall|k: int| j <= k < t.len() implies seq_lt(e.0, #[trigger] t[k].0) by {
            assert(t[k] == s[k]);
        }
        if j > 0 {
            assert(t[j - 1] == s[j - 1]);
        }
        lemma_insert_at(t, e, j);
        assert(t.subrange(0, j) + seq![e] + t.subrange(j, t.len() as int) + seq![s.last()]
            =~= s.subrange(0, j) + seq![e] + s.subrange(j, s.len() as int));
    }
}

/// Puts `e` into the sorted entries `r` as `insert_entry` does.
fn insert_sorted(r: &mut Vec<(String, String)>, e: (String, String))
    ensures
        entries_view(final(r)@) == insert_entry(entries_view(old(r)@), (e.0@, e.1@)),
{
    let key = chars_of(e.0.as_str());
    let ghost ev = entries_view(r@);
    let mut j: usize = r.len();
    loop
        invariant
            j <= r@.len(),
            ev == entries_view(r@),
            key@ == e.0@,
            forall|k: int| j <= k < r@.len() ==> seq_lt(key@, #[trigger] ev[k].0),
        ensures
            j <= r@.len(),
            ev == entries_view(r@),
            forall|k: int| j <= k < r@.len() ==> seq_lt(key@, #[trigger] ev[k].0),
            j > 0 ==> !seq_lt(key@, ev[j - 1].0),
        decreases j,
    {
        if j == 0 {
            break;
        }
        let kj = chars_of(r[j - 1].0.as_str());
        assert(ev[j - 1].0 == r@[j - 1].0@);
        match key_order(&key, &kj) {
            KeyOrder::Less => {},
            _ => break,
        }
        j = j - 1;
    }
    let ghost x = (e.0@, e.1@);
    proof {
        lemma_insert_at(ev, x, j as int);
    }
    r.insert(j, e);
    assert(entries_view(r@) =~= ev.subrange(0, j as int) + seq![x] + ev.subrange(j as int, ev.len() as int));
}

/// The entries sorted by name, as `sort_entries`.
fn sort_by_name(v: &Vec<(String, String)>) -> (r: Vec<(String, String)>)
    ensures
        entries_view(r@) == sort_entries(entries_view(v@)),
{
    let mut r: Vec<(String, String)> = Vec::new();
    let mut i: usize = 0;
    assert(entries_view(v@.subrange(0, 0)) =~= Seq::<(Seq<char>, Seq<char>)>::empty());
    assert(entries_view(r@) =~= Seq::<(Seq<char>, Seq<char>)>::empty());
    while i < v.len()
        invariant
            i <= v@.len(),
            entries_view(r@) == sort_entries(entries_view(v@.subrange(0, i as int))),
        decreases v@.len() - i,
    {
        let e = (v[i].0.clone(), v[i].1.clone());
        proof {
            let t = entries_view(v@.subrange(0, i + 1));
            assert(t.drop_last() =~= entries_view(v@.subrange(0, i as int)));
            assert(t.last() == (e.0@, e.1@));
        }
        insert_sorted(&mut r, e);
        i = i + 1;
    }
    assert(v@.subrange(0, v@.len() as int) =~= v@);
    r
}

// ----- canonical text -----
/// Texts joined with a separator (`[..].join(sep)`).
pub open spec fn join_texts(s: Seq<Seq<char>>, sep: Seq<char>) -> Seq<char>
    decreases s.len(),
{
    if s.len() == 0 {
        Seq::empty()
    } else if s.len() == 1 {
        s[0]
    } else {
        join_texts(s.drop_last(), sep) + sep + s.last()
    }
}

/// Texts joined with commas.
pub open spec fn join_commas(s: Seq<Seq<char>>) -> Seq<char> {
    join_texts(s, ","@)
}

/// Texts joined with a separator.
pub fn join_strings(texts: &Vec<String>, sep: &str) -> (r: String)
    ensures
        r@ == join_texts(texts@.map_values(|t: String| t@), sep@),
{
    let ghost tv = texts@.map_values(|t: String| t@);
    let mut out = String::new();
    let mut i: usize = 0;
    assert(tv.subrange(0, 0) =~= Seq::<Seq<char>>::empty());
    while i < texts.len()
        invariant
            i <= texts@.len(),
            tv == texts@.map_values(|t: String| t@),
            out@ == join_texts(tv.subrange(0, i as int), sep@),
        decreases texts@.len() - i,
    {
        proof {
            let t = tv.subrange(0, i + 1);
            assert(t.drop_last() =~= tv.subrange(0, i as int));
            assert(t.last() == texts@[i as int]@);
        }
        if i == 0 {
            out = texts[i].clone();
        } else {
            out = concat3(out.as_str(), sep, texts[i].as_str());
        }
        i = i + 1;
    }
    assert(tv.subrange(0, tv.len() as int) =~= tv);
    out
}

/// The canonical text of a value: `null`, `true`, `false`, a number's text,
/// a string as `serde_json` quotes it, arrays item by item, objects member
/// by member sorted by name, all joined by commas with no spaces.
pub open spec fn stable_text(j: Json) -> Seq<char>
    decreases j, 1int,
{
    match j {
        Json::Null => "null"@,
        Json::Bool(b) => if b {
            "true"@
        } else {
            "false"@
        },
        Json::Number(t) => t@,
        Json::Str(s) => json_text(JsonView::Str(s@)),
        Json::Array(items) => "["@ + join_commas(stable_items(items@)) + "]"@,
        Json::Object(members) => "{"@ + join_commas(
            sort_entries(member_entries(members@)).map_values(|e: (Seq<char>, Seq<char>)| e.1),
        ) + "}"@,
    }
}

/// The canonical texts of the items of an array.
pub open spec fn stable_items(s: Seq<Json>) -> Seq<Seq<char>>
    decreases s, 0int,
{
    if s.len() == 0 {
        Seq::empty()
    } else {
        stable_items(s.drop_last()).push(stable_text(s.last()))
    }
}

/// The members of an object as named entries: the name, and the quoted
/// name, a colon and the canonical text of the value.
pub open spec fn member_entries(s: Seq<(String, Json)>) -> Seq<(Seq<char>, Seq<char>)>
    decreases s, 0int,
{
    if s.len() == 0 {
        Seq::empty()
    } else {
        member_entries(s.drop_last()).push(
            (s.last().0@, json_text(JsonView::Str(s.last().0@)) + ":"@ + stable_text(s.last().1)),
        )
    }
}

/// Values with the same view have the same canonical text.
pub proof fn lemma_stable_text_view(a: Json, b: Json)
    requires
        jv(a) == jv(b),
    ensures
        stable_text(a) == stable_text(b),
    decreases a, 1int,
{
    match a {
        Json::Array(x) => {
            let y = b->Array_0;
            assert(decreases_to!(a => x));
            lemma_stable_items_view(x@, y@);
        },
        Json::Object(x) => {
            let y = b->Object_0;
            assert(decreases_to!(a => x));
            lemma_member_entries_view(x@, y@);
        },
        _ => {},
    }
}

proof fn lemma_stable_items_view(s: Seq<Json>, t: Seq<Json>)
    requires
        jv_items(s) == jv_items(t),
    ensures
        stable_items(s) == stable_items(t),
    decreases s, 0int,
{
    if s.len() > 0 {
        assert(t.len() > 0) by {
            assert(jv_items(s).len() == jv_items(s.drop_last()).len() + 1);
            if t.len() == 0 {
                assert(jv_items(t).len() == 0);
            }
        }
        let p = jv_items(s.drop_last());
        let q = jv_items(t.drop_last());
        assert(p.push(jv(s.last())) == q.push(jv(t.last())));
        assert(p.len() == q.len());
        assert(p =~= q) by {
            assert forall|i: int| 0 <= i < p.len() implies p[i] == q[i] by {
                assert(p.push(jv(s.last()))[i] == q.push(jv(t.last()))[i]);
            }
        }
        assert(p.push(jv(s.last()))[p.len() as int] == q.push(jv(t.last()))[p.len() as int]);
        lemma_stable_items_view(s.drop_last(), t.drop_last());
        lemma_stable_text_view(s.last(), t.last());
    } else {
        assert(t.len() == 0) by {
            if t.len() > 0 {
                assert(jv_items(t).len() > 0);
            }
        }
    }
}

proof fn lemma_member_entries_view(s: Seq<(String, Json)>, t: Seq<(String, Json)>)
    requires
        jv_members(s) == jv_members(t),
    ensures
        member_entries(s) == member_entries(t),
    decreases s, 0int,
{
    if s.len() > 0 {
        assert(t.len() > 0) by {
            assert(jv_members(s).len() == jv_members(s.drop_last()).len() + 1);
            if t.len() == 0 {
                assert(jv_members(t).len() == 0);
            }
        }
        let p = jv_members(s.drop_last());
        let q = jv_members(t.drop_last());
        let x = (s.last().0@, jv(s.last().1));
        let y = (t.last().0@, jv(t.last().1));
        assert(p.push(x) == q.push(y));
        assert(p.len() == q.len());
        assert(p =~= q) by {
            assert forall|i: int| 0 <= i < p.len() implies p[i] == q[i] by {
                assert(p.push(x)[i] == q.push(y)[i]);
            }
        }
        assert(p.push(x)[p.len() as int] == q.push(y)[p.len() as int]);
        lemma_member_entries_view(s.drop_last(), t.drop_last());
        assert(decreases_to!(s => s.last()));
        assert(decreases_to!(s.last() => s.last().1));
        lemma_stable_text_view(s.last().1, t.last().1);
    } else {
        assert(t.len() == 0) by {
            if t.len() > 0 {
                assert(jv_members(t).len() > 0);
            }
        }
    }
}

fn quoted(s: &String) -> (r: String)
    ensures
        r@ == json_text(JsonView::Str(s@)),
{
    json_to_text(&Json::Str(s.clone()))
}

/// The canonical text of a value.
pub fn stable_json(v: &Json) -> (r: String)
    ensures
        r@ == stable_text(*v),
    decreases *v,
{
    match v {
        Json::Null => owned("null"),
        Json::Bool(b) => if *b {
            owned("true")
        } else {
            owned("false")
        },
        Json::Number(t) => t.clone(),
        Json::Str(s) => quoted(s),
        Json::Array(items) => {
            let mut texts: Vec<String> = Vec::new();
            let mut i: usize = 0;
            assert(texts@.map_values(|t: String| t@) =~= stable_items(items@.subrange(0, 0)));
            while i < items.len()
                invariant
                    i <= items@.len(),
                    *v == Json::Array(*items),
                    texts@.map_values(|t: String| t@) == stable_items(items@.subrange(0, i as int)),
                decreases items@.len() - i,
            {
                assert(decreases_to!(*v => (*v)->Array_0));
                assert(decreases_to!(*items => items[i as int]));
                let t = stable_json(&items[i]);
                let ghost before = texts@;
                texts.push(t);
                proof {
                    let s = items@.subrange(0, i + 1);
                    assert(s.drop_last() =~= items@.subrange(0, i as int));
                    assert(texts@.map_values(|t: String| t@) =~= before.map_values(|t: String| t@).push(t@));
                }
                i = i + 1;
            }
            assert(items@.subrange(0, items@.len() as int) =~= items@);
            let joined = join_strings(&texts, ",");
            concat3("[", joined.as_str(), "]")
        },
        Json::Object(members) => {
            let mut entries: Vec<(String, String)> = Vec::new();
            let mut i: usize = 0;
            assert(entries_view(entries@) =~= member_entries(members@.subrange(0, 0)));
            while i < members.len()
                invariant
                    i <= members@.len(),
                    *v == Json::Object(*members),
                    entries_view(entries@) == member_entries(members@.subrange(0, i as int)),
                decreases members@.len() - i,
            {
                assert(decreases_to!(*v => (*v)->Object_0));
                assert(decreases_to!(*members => members[i as int]));
                assert(decreases_to!(members[i as int] => members[i as int].1));
                let value_text = stable_json(&members[i].1);
                let name_text = quoted(&members[i].0);
                let entry = concat3(name_text.as_str(), ":", value_text.as_str());
                let ghost before = entries@;
                entries.push((members[i].0.clone(), entry));
                proof {
                    let s = members@.subrange(0, i + 1);
                    assert(s.drop_last() =~= members@.subrange(0, i as int));
                    assert(entries_view(entries@) =~= entries_view(before).push(
                        (members@[i as int].0@, entry@),
                    ));
                }
                i = i + 1;
            }
            assert(members@.subrange(0, members@.len() as int) =~= members@);
            let sorted = sort_by_name(&entries);
            let mut texts: Vec<String> = Vec::new();
            let mut k: usize = 0;
            let ghost sv = entries_view(sorted@);
            while k < sorted.len()
                invariant
                    k <= sorted@.len(),
                    sv == entries_view(sorted@),
                    texts@.map_values(|t: String| t@) =~= sv.subrange(0, k as int).map_values(
                        |e: (Seq<char>, Seq<char>)| e.1,
                    ),
                decreases sorted@.len() - k,
            {
                let ghost before = texts@;
                texts.push(sorted[k].1.clone());
                proof {
                    assert(texts@.map_values(|t: String| t@) =~= sv.subrange(0, k + 1).map_values(
                        |e: (Seq<char>, Seq<char>)| e.1,
                    )) by {
                        assert(texts@.map_values(|t: String| t@) =~= before.map_values(|t: String| t@).push(sorted@[k as int].1@));
                    }
                }
                k = k + 1;
            }
            assert(sv.subrange(0, sv.len() as int) =~= sv);
            let joined = join_strings(&texts, ",");
            concat3("{", joined.as_str(), "}")
        },
    }
}

} // verus!
