//! Cutting JSON down to some of its fields.

use crate::json;
use crate::json::Json;
use crate::json::JsonV;
use crate::positions;
use crate::text;
use crate::text::Text;
use vstd::prelude::*;

verus! {

// ---------------------------------------------------------------------- paths

/// A step of a path as it names a member: `~1` stands for a slash and `~0` for a tilde.
pub open spec fn step_name(t: Text) -> Text {
    text::replaced(text::replaced(t, "~1"@, "/"@), "~0"@, "~"@)
}

/// The steps of a dot path; a slash separates too.
pub open spec fn path_steps(f: Text) -> Seq<Text> {
    text::pieces(f, "./"@).map_values(|t: Text| step_name(t))
}

/// The position in an array that a step names: a number without zeros or a plus sign in front.
pub open spec fn step_index(t: Text) -> Option<nat> {
    if t.len() == 0 || t[0] == '+' || (t[0] == '0' && t.len() != 1) {
        None
    } else {
        text::number_value(t)
    }
}

/// Where one step leads.
pub open spec fn step_into(v: JsonV, t: Text) -> Option<JsonV> {
    match v {
        JsonV::Obj(_) => v.get(t),
        JsonV::Arr(items) => match step_index(t) {
            Some(i) if i < items.len() => Some(items[i as int]),
            _ => None,
        },
        _ => None,
    }
}

/// Where some steps lead.
pub open spec fn walk(v: JsonV, steps: Seq<Text>) -> Option<JsonV>
    decreases steps.len(),
{
    if steps.len() == 0 {
        Some(v)
    } else {
        match step_into(v, steps[0]) {
            Some(x) => walk(x, steps.skip(1)),
            None => None,
        }
    }
}

/// What a dot path leads to.
pub open spec fn field_of(v: JsonV, f: Text) -> Option<JsonV> {
    walk(v, path_steps(f))
}

fn index_of_step(t: &str) -> (r: Option<usize>)
    ensures
        match r {
            Some(i) => step_index(t@) == Some(i as nat),
            None => step_index(t@) is None || step_index(t@)->0 > usize::MAX,
        },
{
    let v = text::chars_of(t);
    if v.len() == 0 || v[0] == '+' || (v[0] == '0' && v.len() != 1) {
        return None;
    }
    match text::parse_number(t, usize::MAX as u64) {
        Some(n) => Some(n as usize),
        None => None,
    }
}

/// What an option holds.
pub open spec fn opt_ref(o: Option<&Json>) -> Option<JsonV> {
    match o {
        Some(j) => Some(j@),
        None => None,
    }
}

fn enter<'a>(v: &'a Json, t: &str) -> (r: Option<&'a Json>)
    ensures
        opt_ref(r) == step_into(v@, t@),
{
    match v {
        Json::Obj(_) => v.get(t),
        Json::Arr(items) => {
            proof {
                json::lemma_arr(*items);
            }
            let n = items.len();
            match index_of_step(t) {
                Some(i) => if i < n {
                    Some(&items[i])
                } else {
                    None
                },
                None => None,
            }
        },
        _ => None,
    }
}

/// What a dot path leads to.
pub fn field<'a>(v: &'a Json, f: &str) -> (r: Option<&'a Json>)
    ensures
        opt_ref(r) == field_of(v@, f@),
{
    let parts = text::split_on(f, "./");
    let ghost steps = path_steps(f@);
    proof {
        reveal_strlit("~1");
        reveal_strlit("~0");
        assert(steps.skip(0) =~= steps);
    }
    let mut cur: &Json = v;
    let mut i: usize = 0;
    while i < parts.len()
        invariant
            i <= parts@.len(),
            "~1"@.len() == 2,
            "~0"@.len() == 2,
            steps == text::views(parts@).map_values(|t: Text| step_name(t)),
            field_of(v@, f@) == walk(cur@, steps.skip(i as int)),
        decreases parts@.len() - i,
    {
        let name = text::replace(&text::replace(&parts[i], "~1", "/"), "~0", "~");
        proof {
            assert(steps.skip(i as int)[0] == name@);
            assert(steps.skip(i as int).skip(1) =~= steps.skip(i + 1));
        }
        match enter(cur, &name) {
            Some(x) => {
                cur = x;
            },
            None => {
                return None;
            },
        }
        i = i + 1;
    }
    Some(cur)
}

// ---------------------------------------------------------------------- fields

/// A path with what it leads to, or null.
pub open spec fn field_member(v: JsonV, f: Text) -> (Text, JsonV) {
    (
        f,
        match field_of(v, f) {
            Some(x) => x,
            None => JsonV::Null,
        },
    )
}

/// Members put into an object one after the other: in the order of their names, the last of a name
/// standing.
pub open spec fn built(pairs: Seq<(Text, JsonV)>) -> Seq<(Text, JsonV)>
    decreases pairs.len(),
{
    if pairs.len() == 0 {
        Seq::empty()
    } else {
        json::put_member(built(pairs.drop_last()), pairs.last().0, pairs.last().1)
    }
}

/// The paths that lead somewhere, or those that do not.
pub open spec fn paths_where(v: JsonV, fields: Seq<Text>, there: bool) -> Seq<Text>
    decreases fields.len(),
{
    if fields.len() == 0 {
        Seq::empty()
    } else {
        let rest = paths_where(v, fields.drop_last(), there);
        if (field_of(v, fields.last()) is Some) == there {
            rest.push(fields.last())
        } else {
            rest
        }
    }
}

/// The members that are neither arrays nor objects.
pub open spec fn scalars(m: Seq<(Text, JsonV)>) -> Seq<(Text, JsonV)>
    decreases m.len(),
{
    if m.len() == 0 {
        Seq::empty()
    } else {
        let rest = scalars(m.drop_last());
        if m.last().1 is Arr || m.last().1 is Obj {
            rest
        } else {
            rest.push(m.last())
        }
    }
}

/// The position of the first member that is an array.
pub open spec fn first_list(m: Seq<(Text, JsonV)>) -> Option<int> {
    text::first_where(m, |x: (Text, JsonV)| x.1 is Arr)
}

/// The fields of an object, each under its path.
pub open spec fn fields_only(v: JsonV, fields: Seq<Text>) -> Seq<(Text, JsonV)> {
    built(fields.map_values(|f: Text| field_member(v, f)))
}

/// What stands beside the list of a wrapper: the fields that the object itself has, or, without such,
/// its plain values.
pub open spec fn beside_list(v: JsonV, own: Seq<Text>) -> Seq<(Text, JsonV)> {
    if own.len() == 0 {
        built(scalars(v.fields()))
    } else {
        fields_only(v, own)
    }
}

/// Only some fields of an object, of each object in an array, or of the items of a wrapper such as
/// `{"total_count": 142, "items": [...]}`: fields the object itself has stay at its level, the rest
/// apply to the items of its list.
pub open spec fn projected(v: JsonV, fields: Seq<Text>) -> JsonV
    decreases v,
{
    match v {
        JsonV::Arr(items) => JsonV::Arr(projected_list(items, fields)),
        JsonV::Obj(m) => {
            let inner = paths_where(v, fields, false);
            match first_list(m) {
                Some(i) if inner.len() > 0 && 0 <= i < m.len() => JsonV::Obj(
                    json::put_member(
                        beside_list(v, paths_where(v, fields, true)),
                        m[i].0,
                        projected(m[i].1, inner),
                    ),
                ),
                _ => JsonV::Obj(fields_only(v, fields)),
            }
        },
        _ => v,
    }
}

/// Only some fields of each item.
pub open spec fn projected_list(items: Seq<JsonV>, fields: Seq<Text>) -> Seq<JsonV>
    decreases items,
{
    Seq::new(
        items.len(),
        |i: int|
            if 0 <= i < items.len() {
                projected(items[i], fields)
            } else {
                JsonV::Null
            },
    )
}

fn split_paths(v: &Json, fields: &Vec<String>) -> (r: (Vec<String>, Vec<String>))
    ensures
        text::views(r.0@) == paths_where(v@, text::views(fields@), true),
        text::views(r.1@) == paths_where(v@, text::views(fields@), false),
{
    broadcast use text::group_views;
    let ghost all = text::views(fields@);
    let mut own: Vec<String> = Vec::new();
    let mut inner: Vec<String> = Vec::new();
    let mut i: usize = 0;
    proof {
        assert(all.take(0) =~= Seq::<Text>::empty());
    }
    while i < fields.len()
        invariant
            i <= fields@.len(),
            all == text::views(fields@),
            text::views(own@) == paths_where(v@, all.take(i as int), true),
            text::views(inner@) == paths_where(v@, all.take(i as int), false),
        decreases fields@.len() - i,
    {
        broadcast use text::group_views;
        proof {
            assert(all.take(i + 1).drop_last() =~= all.take(i as int));
            assert(all.take(i + 1).last() == fields@[i as int]@);
        }
        if field(v, &fields[i]).is_some() {
            own.push(fields[i].clone());
        } else {
            inner.push(fields[i].clone());
        }
        i = i + 1;
    }
    proof {
        assert(all.take(all.len() as int) =~= all);
    }
    (own, inner)
}

fn pick_fields(v: &Json, fields: &Vec<String>) -> (r: Json)
    ensures
        r@ == JsonV::Obj(fields_only(v@, text::views(fields@))),
{
    let ghost pairs = text::views(fields@).map_values(|f: Text| field_member(v@, f));
    let mut out = Json::obj();
    let mut i: usize = 0;
    proof {
        assert(pairs.take(0) =~= Seq::<(Text, JsonV)>::empty());
    }
    while i < fields.len()
        invariant
            i <= fields@.len(),
            pairs == text::views(fields@).map_values(|f: Text| field_member(v@, f)),
            out@ == JsonV::Obj(built(pairs.take(i as int))),
        decreases fields@.len() - i,
    {
        proof {
            assert(pairs.take(i + 1).drop_last() =~= pairs.take(i as int));
            assert(pairs.take(i + 1).last() == field_member(v@, fields@[i as int]@));
        }
        let x = match field(v, &fields[i]) {
            Some(x) => x.clone(),
            None => Json::Null,
        };
        out = out.put(&fields[i], x);
        i = i + 1;
    }
    proof {
        assert(pairs.take(pairs.len() as int) =~= pairs);
    }
    out
}

fn pick_scalars(m: &Vec<(String, Json)>) -> (r: Json)
    ensures
        r@ == JsonV::Obj(built(scalars(json::members(m@)))),
{
    let ghost all = json::members(m@);
    let mut out = Json::obj();
    let mut i: usize = 0;
    proof {
        assert(all.take(0) =~= Seq::<(Text, JsonV)>::empty());
    }
    while i < m.len()
        invariant
            i <= m@.len(),
            all == json::members(m@),
            out@ == JsonV::Obj(built(scalars(all.take(i as int)))),
        decreases m@.len() - i,
    {
        let ghost before = scalars(all.take(i as int));
        proof {
            assert(all.take(i + 1).drop_last() =~= all.take(i as int));
            assert(all.take(i + 1).last() == (m@[i as int].0@, m@[i as int].1@));
        }
        let plain = match &m[i].1 {
            Json::Arr(_) => false,
            Json::Obj(_) => false,
            _ => true,
        };
        if plain {
            out = out.put(&m[i].0, m[i].1.clone());
            proof {
                let more = before.push((m@[i as int].0@, m@[i as int].1@));
                assert(more.drop_last() =~= before);
            }
        }
        i = i + 1;
    }
    proof {
        assert(all.take(all.len() as int) =~= all);
    }
    out
}

fn find_list(m: &Vec<(String, Json)>) -> (r: Option<usize>)
    ensures
        match r {
            Some(i) => first_list(json::members(m@)) == Some(i as int) && i < m@.len(),
            None => first_list(json::members(m@)) is None,
        },
{
    let ghost all = json::members(m@);
    let ghost f = |x: (Text, JsonV)| x.1 is Arr;
    let mut i: usize = 0;
    while i < m.len()
        invariant
            i <= m@.len(),
            all == json::members(m@),
            f == (|x: (Text, JsonV)| x.1 is Arr),
            forall|k: int| 0 <= k < i ==> !f(#[trigger] all[k]),
        decreases m@.len() - i,
    {
        proof {
            assert(all[i as int] == (m@[i as int].0@, m@[i as int].1@));
        }
        let is_list = match &m[i].1 {
            Json::Arr(_) => true,
            _ => false,
        };
        if is_list {
            proof {
                text::lemma_found(all, f, i as int);
            }
            return Some(i);
        }
        i = i + 1;
    }
    proof {
        text::lemma_first_where(all, f);
    }
    None
}

/// Keeps only `fields` (dot paths) of a JSON object, of each object in an array, or of the items of a
/// wrapper.
pub fn project(v: &Json, fields: &Vec<String>) -> (r: Json)
    ensures
        r@ == projected(v@, text::views(fields@)),
    decreases v,
{
    match v {
        Json::Arr(items) => {
            proof {
                json::lemma_arr(*items);
            }
            let mut out: Vec<Json> = Vec::new();
            let mut i: usize = 0;
            while i < items.len()
                invariant
                    v == Json::Arr(*items),
                    i <= items@.len(),
                    out@.len() == i,
                    forall|k: int|
                        0 <= k < i ==> (#[trigger] out@[k])@ == projected(items@[k]@, text::views(fields@)),
                decreases items@.len() - i,
            {
                proof {
                    assert(decreases_to!(*v => (*v)->Arr_0));
                    assert(decreases_to!(items@ => items@[i as int]));
                }
                let x = project(&items[i], fields);
                out.push(x);
                i = i + 1;
            }
            proof {
                json::lemma_arr(out);
                assert(text::views(out@) =~= projected_list(text::views(items@), text::views(fields@)));
            }
            Json::Arr(out)
        },
        Json::Obj(m) => {
            proof {
                json::lemma_obj(*m);
            }
            let (own, inner) = split_paths(v, fields);
            if inner.len() > 0 {
                match find_list(m) {
                    Some(i) => {
                        let beside = if own.len() == 0 {
                            pick_scalars(m)
                        } else {
                            pick_fields(v, &own)
                        };
                        proof {
                            assert(v@.fields() == json::members(m@));
                            assert(json::members(m@)[i as int] == (m@[i as int].0@, m@[i as int].1@));
                            assert(decreases_to!(*v => (*v)->Obj_0));
                            assert(decreases_to!(m@ => m@[i as int]));
                            assert(decreases_to!(m@[i as int] => m@[i as int].1));
                        }
                        let list = project(&m[i].1, &inner);
                        return beside.put(&m[i].0, list);
                    },
                    None => {},
                }
            }
            pick_fields(v, fields)
        },
        other => other.clone(),
    }
}

// ---------------------------------------------------------------------- laws

proof fn lemma_place(m: Seq<(Text, JsonV)>, k: Text, i: int)
    requires
        0 <= i < json::place(m, k),
    ensures
        json::place(m, k) <= m.len(),
        m[i].0 != k,
    decreases m.len(),
{
    if i == 0 {
        lemma_before_itself(k);
        lemma_place_bound(m, k);
    } else {
        lemma_place(m.skip(1), k, i - 1);
        assert(m.skip(1)[i - 1] == m[i]);
    }
}

proof fn lemma_place_bound(m: Seq<(Text, JsonV)>, k: Text)
    ensures
        json::place(m, k) <= m.len(),
    decreases m.len(),
{
    if m.len() > 0 && text::text_before(m[0].0, k) {
        lemma_place_bound(m.skip(1), k);
    }
}

proof fn lemma_before_itself(k: Text)
    ensures
        !text::text_before(k, k),
    decreases k.len(),
{
    if k.len() > 0 {
        lemma_before_itself(k.skip(1));
    }
}

/// The first member of a name is at a position where no one before it has the name.
proof fn lemma_member_at(m: Seq<(Text, JsonV)>, k: Text, i: int)
    requires
        0 <= i < m.len(),
        m[i].0 == k,
        forall|j: int| 0 <= j < i ==> (#[trigger] m[j]).0 != k,
    ensures
        json::member(m, k) == Some(m[i].1),
    decreases i,
{
    if i > 0 {
        assert(m[0].0 != k);
        assert forall|j: int| 0 <= j < i - 1 implies (#[trigger] m.skip(1)[j]).0 != k by {
            assert(m[j + 1].0 != k);
        }
        assert(m.skip(1)[i - 1] == m[i]);
        lemma_member_at(m.skip(1), k, i - 1);
    }
}

proof fn lemma_put_same(m: Seq<(Text, JsonV)>, k: Text, v: JsonV)
    ensures
        json::member(json::put_member(m, k, v), k) == Some(v),
{
    let i = json::place(m, k) as int;
    lemma_place_bound(m, k);
    let p = json::put_member(m, k, v);
    assert(p[i] == (k, v));
    assert forall|j: int| 0 <= j < i implies (#[trigger] p[j]).0 != k by {
        lemma_place(m, k, j);
        assert(p[j] == m[j]);
    }
    lemma_member_at(p, k, i);
}

/// A member of another name is not touched by an update or an insertion.
proof fn lemma_member_other(m: Seq<(Text, JsonV)>, n: Seq<(Text, JsonV)>, i: int, o: Text)
    requires
        0 <= i < n.len(),
        n[i].0 != o,
        n =~= m.insert(i, n[i]) && i <= m.len() || (i < m.len() && m[i].0 != o && n =~= m.update(i, n[i])),
    ensures
        json::member(n, o) == json::member(m, o),
    decreases i,
{
    if i == 0 {
        if n.len() == m.len() {
            assert(n.skip(1) =~= m.skip(1));
        } else {
            assert(n.skip(1) =~= m);
        }
    } else {
        assert(n[0] == m[0]);
        let a = m.skip(1);
        let b = n.skip(1);
        assert(b[i - 1] == n[i]);
        if n.len() == m.len() {
            assert(b =~= a.update(i - 1, b[i - 1]));
            assert(a[i - 1] == m[i]);
        } else {
            assert(b =~= a.insert(i - 1, b[i - 1]));
        }
        lemma_member_other(a, b, i - 1, o);
    }
}

proof fn lemma_put_other(m: Seq<(Text, JsonV)>, k: Text, v: JsonV, o: Text)
    requires
        o != k,
    ensures
        json::member(json::put_member(m, k, v), o) == json::member(m, o),
{
    let i = json::place(m, k) as int;
    lemma_place_bound(m, k);
    lemma_member_other(m, json::put_member(m, k, v), i, o);
}

/// Every field that is asked for stands in the cut-down object under its path: with what the path
/// leads to, or null.
pub proof fn law_fields_are_there(v: JsonV, fields: Seq<Text>, i: int)
    requires
        0 <= i < fields.len(),
    ensures
        JsonV::Obj(fields_only(v, fields)).get(fields[i]) == Some(field_member(v, fields[i]).1),
    decreases fields.len(),
{
    let pairs = fields.map_values(|f: Text| field_member(v, f));
    let rest = fields.drop_last();
    assert(pairs.drop_last() =~= rest.map_values(|f: Text| field_member(v, f)));
    let last = fields.last();
    let x = field_member(v, last).1;
    let before = fields_only(v, rest);
    assert(fields_only(v, fields) == json::put_member(before, last, x));
    if fields[i] == last {
        lemma_put_same(before, last, x);
    } else {
        lemma_put_other(before, last, x, fields[i]);
        assert(rest[i] == fields[i]);
        law_fields_are_there(v, rest, i);
    }
}

/// What is put into an object is read from it under its name, and what stands under other names stays.
pub proof fn law_put_members_are_read(j: JsonV, k: Text, v: JsonV, name: Text)
    requires
        j is Obj,
    ensures
        j.put(k, v).get(k) == Some(v),
        name != k ==> j.put(k, v).get(name) == j.get(name),
{
    lemma_put_same(j.fields(), k, v);
    if name != k {
        lemma_put_other(j.fields(), k, v, name);
    }
}

/// The steps of a path stand between dots or slashes; in a step `~1` stands for a slash and `~0` for a tilde.
pub proof fn law_steps_of_paths(first: Text, c: char, rest: Text)
    requires
        c == '.' || c == '/',
        forall|k: int| 0 <= k < first.len() ==> #[trigger] first[k] != '.' && first[k] != '/',
    ensures
        path_steps(first) == seq![step_name(first)],
        path_steps(first.push(c) + rest) == seq![step_name(first)] + path_steps(rest),
        step_name(first) == text::replaced(text::replaced(first, "~1"@, "/"@), "~0"@, "~"@),
        !text::text_has(first, "~1"@) && !text::text_has(first, "~0"@) ==> step_name(first) == first,
{
    reveal_strlit("./");
    reveal_strlit("~1");
    reveal_strlit("~0");
    let seps = "./"@;
    assert(seps.len() == 2 && seps[0] == '.' && seps[1] == '/');
    assert("~1"@.len() == 2 && "~0"@.len() == 2);
    assert forall|k: int| 0 <= k < first.len() implies !seps.contains(#[trigger] first[k]) by {
        assert(first[k] != '.');
    }
    text::law_pieces_end_at_separators(first, c, rest, seps);
    let p = text::pieces(rest, seps);
    assert(path_steps(first) =~= seq![step_name(first)]);
    assert(path_steps(first.push(c) + rest) =~= seq![step_name(first)] + path_steps(rest));
    text::law_replacing(first, "~1"@, "/"@);
    text::law_replacing(first, "~0"@, "~"@);
}

/// A step into an object leads to the member of its name, and one into an array to the element at its
/// number, counted from 0; other steps, and steps into anything else, lead nowhere.
pub proof fn law_steps_lead_into_values(m: Seq<(Text, JsonV)>, items: Seq<JsonV>, t: Text, i: nat)
    ensures
        step_into(JsonV::Obj(m), t) == JsonV::Obj(m).get(t),
        i < items.len() ==> step_into(JsonV::Arr(items), text::dec(i)) == Some(items[i as int]),
        i >= items.len() ==> step_into(JsonV::Arr(items), text::dec(i)) is None,
        step_index(t) is None ==> step_into(JsonV::Arr(items), t) is None,
        step_into(JsonV::Null, t) is None && step_into(JsonV::Str(t), t) is None,
        t.len() > 0 && t[0] == '+' ==> step_index(t) is None,
        t.len() > 1 && t[0] == '0' ==> step_index(t) is None,
{
    text::law_numbers_are_read_back(i);
    lemma_dec_begins(i);
}

proof fn lemma_dec_begins(n: nat)
    ensures
        text::dec(n).len() > 0,
        text::dec(n)[0] == '0' ==> n == 0,
        n < 10 ==> text::dec(n).len() == 1,
        text::dec(n)[0] != '+',
    decreases n,
{
    if n >= 10 {
        lemma_dec_begins(n / 10);
        assert(text::dec(n)[0] == text::dec(n / 10)[0]);
    } else {
        assert(text::dec(n)[0] == text::digit(n));
        assert(text::digit(n) as u8 == 48 + n);
    }
}

/// Steps lead on one after the other, and nowhere once one of them leads nowhere.
pub proof fn law_walks(v: JsonV, t: Text, rest: Seq<Text>)
    ensures
        walk(v, Seq::empty()) == Some(v),
        step_into(v, t) is None ==> walk(v, seq![t] + rest) is None,
        step_into(v, t) is Some ==> walk(v, seq![t] + rest) == walk(step_into(v, t)->0, rest),
{
    assert((seq![t] + rest)[0] == t);
    assert((seq![t] + rest).skip(1) =~= rest);
}

/// The paths that lead somewhere and those that do not: each of the fields is one or the other, in order.
pub proof fn law_paths_lead_somewhere_or_not(v: JsonV, fields: Seq<Text>, there: bool)
    ensures
        positions::shows(
            paths_where(v, fields, there),
            fields.len() as int,
            |j: int| field_of(v, fields[j]) is Some == there,
            |j: int| fields[j],
        ),
{
    lemma_paths_where(
        v,
        fields,
        there,
        fields.len() as int,
        |j: int| field_of(v, fields[j]) is Some == there,
        |j: int| fields[j],
    );
    assert(fields.take(fields.len() as int) =~= fields);
}

proof fn lemma_paths_where(
    v: JsonV,
    fields: Seq<Text>,
    there: bool,
    n: int,
    chosen: spec_fn(int) -> bool,
    show: spec_fn(int) -> Text,
)
    requires
        0 <= n <= fields.len(),
        forall|j: int| 0 <= j < fields.len() ==> #[trigger] chosen(j) == (field_of(v, fields[j]) is Some == there),
        forall|j: int| 0 <= j < fields.len() ==> #[trigger] show(j) == fields[j],
    ensures
        positions::shows(paths_where(v, fields.take(n), there), n, chosen, show),
    decreases n,
{
    let list = paths_where(v, fields.take(n), there);
    if n == 0 {
        positions::lemma_shows_none(list, chosen, show);
    } else {
        lemma_paths_where(v, fields, there, n - 1, chosen, show);
        assert(fields.take(n).drop_last() =~= fields.take(n - 1));
        assert(fields.take(n).last() == fields[n - 1]);
        assert(chosen(n - 1) == (field_of(v, fields[n - 1]) is Some == there));
        assert(show(n - 1) == fields[n - 1]);
        positions::lemma_shows_next(paths_where(v, fields.take(n - 1), there), list, n - 1, chosen, show);
    }
}

/// The plain values of an object are the members that are neither arrays nor objects, in order.
pub proof fn law_plain_values(m: Seq<(Text, JsonV)>)
    ensures
        positions::shows(
            scalars(m),
            m.len() as int,
            |j: int| !(m[j].1 is Arr) && !(m[j].1 is Obj),
            |j: int| m[j],
        ),
{
    lemma_scalars(m, m.len() as int, |j: int| !(m[j].1 is Arr) && !(m[j].1 is Obj), |j: int| m[j]);
    assert(m.take(m.len() as int) =~= m);
}

proof fn lemma_scalars(
    m: Seq<(Text, JsonV)>,
    n: int,
    chosen: spec_fn(int) -> bool,
    show: spec_fn(int) -> (Text, JsonV),
)
    requires
        0 <= n <= m.len(),
        forall|j: int| 0 <= j < m.len() ==> #[trigger] chosen(j) == (!(m[j].1 is Arr) && !(m[j].1 is Obj)),
        forall|j: int| 0 <= j < m.len() ==> #[trigger] show(j) == m[j],
    ensures
        positions::shows(scalars(m.take(n)), n, chosen, show),
    decreases n,
{
    let list = scalars(m.take(n));
    if n == 0 {
        positions::lemma_shows_none(list, chosen, show);
    } else {
        lemma_scalars(m, n - 1, chosen, show);
        assert(m.take(n).drop_last() =~= m.take(n - 1));
        assert(m.take(n).last() == m[n - 1]);
        assert(chosen(n - 1) == (!(m[n - 1].1 is Arr) && !(m[n - 1].1 is Obj)));
        assert(show(n - 1) == m[n - 1]);
        positions::lemma_shows_next(scalars(m.take(n - 1)), list, n - 1, chosen, show);
    }
}

/// Each item of an array is cut down by itself, in order; what is neither an object nor an array stays; an
/// object that has every field, or no list, keeps the fields alone.
pub proof fn law_projecting(v: JsonV, items: Seq<JsonV>, fields: Seq<Text>, i: int)
    ensures
        projected(JsonV::Arr(items), fields).elements().len() == items.len(),
        0 <= i < items.len() ==> projected(JsonV::Arr(items), fields).elements()[i] == projected(items[i], fields),
        !(v is Arr) && !(v is Obj) ==> projected(v, fields) == v,
        v is Obj && (forall|k: int| 0 <= k < fields.len() ==> field_of(v, #[trigger] fields[k]) is Some) ==> projected(
            v,
            fields,
        ) == JsonV::Obj(fields_only(v, fields)),
        v is Obj && (forall|k: int| 0 <= k < (v->Obj_0).len() ==> !((#[trigger] (v->Obj_0)[k]).1 is Arr)) ==> projected(
            v,
            fields,
        ) == JsonV::Obj(fields_only(v, fields)),
{
    let list = projected_list(items, fields);
    assert(projected(JsonV::Arr(items), fields) == JsonV::Arr(list));
    assert(list.len() == items.len());
    if 0 <= i < items.len() {
        assert(list[i] == projected(items[i], fields));
    }
    if v is Obj {
        let m = v->Obj_0;
        let inner = paths_where(v, fields, false);
        law_paths_lead_somewhere_or_not(v, fields, false);
        let chosen = |j: int| field_of(v, fields[j]) is Some == false;
        let show = |j: int| fields[j];
        if inner.len() > 0 {
            assert(inner.contains(inner[0]));
            positions::lemma_shown_only(inner, fields.len() as int, chosen, show, inner[0]);
            let j = choose|j: int| 0 <= j < fields.len() && #[trigger] chosen(j) && show(j) == inner[0];
            assert(field_of(v, fields[j]) is None);
        }
        let f = |x: (Text, JsonV)| x.1 is Arr;
        text::lemma_first_where(m, f);
        match first_list(m) {
            Some(k) => {
                assert(f(m[k]));
            },
            None => {},
        }
    }
}

/// A wrapper around a list: the fields that the wrapper does not have are those of the items of its first
/// list, which stands under its name; the wrapper keeps the fields that it has, or its plain values where it
/// has none of them.
pub proof fn law_projecting_wrappers(m: Seq<(Text, JsonV)>, fields: Seq<Text>, i: int)
    requires
        0 <= i < m.len(),
        m[i].1 is Arr,
        forall|k: int| 0 <= k < i ==> !((#[trigger] m[k]).1 is Arr),
        exists|k: int| 0 <= k < fields.len() && field_of(JsonV::Obj(m), #[trigger] fields[k]) is None,
    ensures
        ({
            let v = JsonV::Obj(m);
            let own = paths_where(v, fields, true);
            let inner = paths_where(v, fields, false);
            let beside = if own.len() == 0 {
                built(scalars(m))
            } else {
                fields_only(v, own)
            };
            projected(v, fields) == JsonV::Obj(json::put_member(beside, m[i].0, projected(m[i].1, inner)))
        }),
{
    let v = JsonV::Obj(m);
    let inner = paths_where(v, fields, false);
    let k = choose|k: int| 0 <= k < fields.len() && field_of(v, #[trigger] fields[k]) is None;
    law_paths_lead_somewhere_or_not(v, fields, false);
    let chosen = |j: int| field_of(v, fields[j]) is Some == false;
    let show = |j: int| fields[j];
    assert(chosen(k));
    positions::lemma_shown(inner, fields.len() as int, chosen, show, k);
    let f = |x: (Text, JsonV)| x.1 is Arr;
    text::lemma_first_where(m, f);
    assert(f(m[i]));
    match first_list(m) {
        Some(j) => {
            assert(f(m[j]));
            if j < i {
                assert(m[j].1 is Arr);
            } else if j > i {
                assert(!f(m[i]));
            }
        },
        None => {
            assert(!f(m[i]));
        },
    }
}

/// Members that are put together one after the other: the last of a name stands.
pub proof fn law_members_are_built(pairs: Seq<(Text, JsonV)>, k: Text, v: JsonV, name: Text)
    ensures
        JsonV::Obj(built(pairs.push((k, v)))).get(k) == Some(v),
        name != k ==> JsonV::Obj(built(pairs.push((k, v)))).get(name) == JsonV::Obj(built(pairs)).get(name),
        built(Seq::empty()) == Seq::<(Text, JsonV)>::empty(),
{
    assert(pairs.push((k, v)).drop_last() =~= pairs);
    lemma_put_same(built(pairs), k, v);
    if name != k {
        lemma_put_other(built(pairs), k, v, name);
    }
}

} // verus!
