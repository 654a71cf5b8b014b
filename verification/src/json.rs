//! JSON values as the library reads and builds them, and their texts.

use crate::text;
use crate::text::Text;
use vstd::prelude::*;

verus! {

/// A JSON value. An integer keeps its value; any other number keeps the text it is written with.
pub enum Json {
    Null,
    Bool(bool),
    Int(i128),
    Float(String),
    Str(String),
    Arr(Vec<Json>),
    Obj(Vec<(String, Json)>),
}

/// What a `Json` holds.
#[verifier::ext_equal]
pub enum JsonV {
    Null,
    Bool(bool),
    Int(int),
    Float(Text),
    Str(Text),
    Arr(Seq<JsonV>),
    Obj(Seq<(Text, JsonV)>),
}

/// The view of `j`, taken to every depth.
pub open spec fn jv(j: Json) -> JsonV
    decreases j,
{
    match j {
        Json::Null => JsonV::Null,
        Json::Bool(b) => JsonV::Bool(b),
        Json::Int(i) => JsonV::Int(i as int),
        Json::Float(s) => JsonV::Float(s@),
        Json::Str(s) => JsonV::Str(s@),
        Json::Arr(v) => JsonV::Arr(
            Seq::new(
                v@.len(),
                |i: int|
                    if 0 <= i < v@.len() {
                        jv(v@[i])
                    } else {
                        JsonV::Null
                    },
            ),
        ),
        Json::Obj(v) => JsonV::Obj(
            Seq::new(
                v@.len(),
                |i: int|
                    if 0 <= i < v@.len() {
                        (v@[i].0@, jv(v@[i].1))
                    } else {
                        (Seq::<char>::empty(), JsonV::Null)
                    },
            ),
        ),
    }
}

impl View for Json {
    type V = JsonV;

    open spec fn view(&self) -> JsonV {
        jv(*self)
    }
}

/// The members of an object by their views.
pub open spec fn members(s: Seq<(String, Json)>) -> Seq<(Text, JsonV)> {
    s.map_values(|m: (String, Json)| (m.0@, m.1@))
}

pub broadcast proof fn lemma_arr(v: Vec<Json>)
    ensures
        #[trigger] Json::Arr(v)@ == JsonV::Arr(text::views(v@)),
{
    let a = Json::Arr(v)@;
    assert(a->Arr_0 =~= text::views(v@));
}

pub broadcast proof fn lemma_obj(v: Vec<(String, Json)>)
    ensures
        #[trigger] Json::Obj(v)@ == JsonV::Obj(members(v@)),
{
    let a = Json::Obj(v)@;
    assert(a->Obj_0 =~= members(v@));
}

pub broadcast group group_json {
    lemma_arr,
    lemma_obj,
}

/// The value of the first member named `k`.
pub open spec fn member(s: Seq<(Text, JsonV)>, k: Text) -> Option<JsonV>
    decreases s.len(),
{
    if s.len() == 0 {
        None
    } else if s[0].0 == k {
        Some(s[0].1)
    } else {
        member(s.skip(1), k)
    }
}

/// Where a member named `k` belongs among members in the order of their names: the first that is
/// not named before `k`.
pub open spec fn place(m: Seq<(Text, JsonV)>, k: Text) -> nat
    decreases m.len(),
{
    if m.len() == 0 || !text::text_before(m[0].0, k) {
        0
    } else {
        1 + place(m.skip(1), k)
    }
}

/// The members, in the order of their names, with `v` as the one named `k`.
pub open spec fn put_member(m: Seq<(Text, JsonV)>, k: Text, v: JsonV) -> Seq<(Text, JsonV)> {
    let i = place(m, k) as int;
    if i < m.len() && m[i].0 == k {
        m.update(i, (k, v))
    } else {
        m.insert(i, (k, v))
    }
}

/// An optional text as JSON: null where there is none.
pub open spec fn opt_str(o: Option<Text>) -> JsonV {
    match o {
        Some(t) => JsonV::Str(t),
        None => JsonV::Null,
    }
}

/// A number as JSON: null where there is none.
pub open spec fn opt_num<T: Integer>(o: Option<T>) -> JsonV {
    match o {
        Some(n) => JsonV::Int(n as int),
        None => JsonV::Null,
    }
}

/// A truth value as JSON: null where there is none.
pub open spec fn opt_bool(o: Option<bool>) -> JsonV {
    match o {
        Some(b) => JsonV::Bool(b),
        None => JsonV::Null,
    }
}

/// An array of strings.
pub open spec fn str_list(s: Seq<Text>) -> JsonV {
    JsonV::Arr(s.map_values(|t: Text| JsonV::Str(t)))
}

impl JsonV {
    /// An object without members.
    pub open spec fn obj() -> JsonV {
        JsonV::Obj(Seq::empty())
    }

    /// An object with one member more, behind the others.
    pub open spec fn with(self, k: Text, v: JsonV) -> JsonV {
        JsonV::Obj(self->Obj_0.push((k, v)))
    }

    /// An object, or null for one without members, with `v` as the member named `k`.
    pub open spec fn put(self, k: Text, v: JsonV) -> JsonV {
        JsonV::Obj(put_member(self.fields(), k, v))
    }

    /// The member named `k`, of an object that has it.
    pub open spec fn get(self, k: Text) -> Option<JsonV> {
        match self {
            JsonV::Obj(m) => member(m, k),
            _ => None,
        }
    }

    /// The member named `k`, or null.
    pub open spec fn at(self, k: Text) -> JsonV {
        match self.get(k) {
            Some(v) => v,
            None => JsonV::Null,
        }
    }

    /// The element at position `i` of an array, or null.
    pub open spec fn nth(self, i: int) -> JsonV {
        match self {
            JsonV::Arr(v) if 0 <= i < v.len() => v[i],
            _ => JsonV::Null,
        }
    }

    pub open spec fn as_text(self) -> Option<Text> {
        match self {
            JsonV::Str(s) => Some(s),
            _ => None,
        }
    }

    /// The text of a string, or `d` of anything else.
    pub open spec fn text_or(self, d: Text) -> Text {
        match self {
            JsonV::Str(s) => s,
            _ => d,
        }
    }

    /// The text of a string; nothing of anything else.
    pub open spec fn text(self) -> Text {
        self.text_or(Seq::empty())
    }

    /// An integer that fits in 64 bits with a sign.
    pub open spec fn as_i64(self) -> Option<int> {
        match self {
            JsonV::Int(i) if i64::MIN <= i <= i64::MAX => Some(i),
            _ => None,
        }
    }

    /// An integer that fits in 64 bits without a sign.
    pub open spec fn as_u64(self) -> Option<nat> {
        match self {
            JsonV::Int(i) if 0 <= i <= u64::MAX => Some(i as nat),
            _ => None,
        }
    }

    pub open spec fn as_bool(self) -> Option<bool> {
        match self {
            JsonV::Bool(b) => Some(b),
            _ => None,
        }
    }

    /// The elements of an array; none of anything else.
    pub open spec fn elements(self) -> Seq<JsonV> {
        match self {
            JsonV::Arr(v) => v,
            _ => Seq::empty(),
        }
    }

    /// The members of an object; none of anything else.
    pub open spec fn fields(self) -> Seq<(Text, JsonV)> {
        match self {
            JsonV::Obj(v) => v,
            _ => Seq::empty(),
        }
    }
}

// ---------------------------------------------------------------------- building

impl Clone for Json {
    fn clone(&self) -> (r: Json)
        ensures
            r@ == self@,
        decreases self,
    {
        match self {
            Json::Null => Json::Null,
            Json::Bool(b) => Json::Bool(*b),
            Json::Int(i) => Json::Int(*i),
            Json::Float(s) => Json::Float(s.clone()),
            Json::Str(s) => Json::Str(s.clone()),
            Json::Arr(v) => {
                let mut out: Vec<Json> = Vec::new();
                let mut i: usize = 0;
                while i < v.len()
                    invariant
                        self == Json::Arr(*v),
                        i <= v@.len(),
                        out@.len() == i,
                        forall|k: int| 0 <= k < i ==> (#[trigger] out@[k])@ == v@[k]@,
                    decreases v@.len() - i,
                {
                    proof {
                        assert(decreases_to!(*self => (*self)->Arr_0));
                        assert(decreases_to!(v@ => v@[i as int]));
                    }
                    let x = v[i].clone();
                    out.push(x);
                    i = i + 1;
                }
                proof {
                    lemma_arr(out);
                    lemma_arr(*v);
                    assert(text::views(out@) =~= text::views(v@));
                }
                Json::Arr(out)
            },
            Json::Obj(v) => {
                let mut out: Vec<(String, Json)> = Vec::new();
                let mut i: usize = 0;
                while i < v.len()
                    invariant
                        self == Json::Obj(*v),
                        i <= v@.len(),
                        out@.len() == i,
                        forall|k: int|
                            0 <= k < i ==> (#[trigger] out@[k]).0@ == v@[k].0@ && out@[k].1@ == v@[k].1@,
                    decreases v@.len() - i,
                {
                    proof {
                        assert(decreases_to!(*self => (*self)->Obj_0));
                        assert(decreases_to!(v@ => v@[i as int]));
                        assert(decreases_to!(v@[i as int] => v@[i as int].1));
                    }
                    let x = v[i].1.clone();
                    out.push((v[i].0.clone(), x));
                    i = i + 1;
                }
                proof {
                    lemma_obj(out);
                    lemma_obj(*v);
                    assert(members(out@) =~= members(v@));
                }
                Json::Obj(out)
            },
        }
    }
}

impl Json {
    /// An object without members.
    pub fn obj() -> (r: Json)
        ensures
            r@ == JsonV::obj(),
    {
        let v: Vec<(String, Json)> = Vec::new();
        proof {
            lemma_obj(v);
            assert(members(v@) =~= Seq::<(Text, JsonV)>::empty());
        }
        Json::Obj(v)
    }

    /// The object `self` with one member more, behind the others.
    pub fn with(self, k: &str, v: Json) -> (r: Json)
        requires
            self@ is Obj,
        ensures
            r@ == self@.with(k@, v@),
    {
        match self {
            Json::Obj(mut m) => {
                let ghost before = m@;
                proof {
                    lemma_obj(m);
                }
                m.push((k.to_string(), v));
                proof {
                    lemma_obj(m);
                    assert(members(m@) =~= members(before).push((k@, v@)));
                }
                Json::Obj(m)
            },
            other => other,
        }
    }

    /// The object `self`, whose members stand in the order of their names, or null for an object
    /// without members, with `v` as the member named `k`.
    pub fn put(self, k: &str, v: Json) -> (r: Json)
        requires
            self@ is Obj || self@ is Null,
        ensures
            r@ == self@.put(k@, v@),
    {
        let mut m: Vec<(String, Json)> = match self {
            Json::Obj(m) => {
                proof {
                    lemma_obj(m);
                }
                m
            },
            _ => Vec::new(),
        };
        let ghost all = members(m@);
        proof {
            assert(all =~= self@.fields());
        }
        let mut i: usize = 0;
        proof {
            assert(all.skip(0) =~= all);
        }
        while i < m.len() && text::before(&m[i].0, k)
            invariant
                i <= m@.len(),
                all == members(m@),
                place(all, k@) == i + place(all.skip(i as int), k@),
            decreases m@.len() - i,
        {
            proof {
                assert(all.skip(i as int)[0] == (m@[i as int].0@, m@[i as int].1@));
                assert(all.skip(i as int).skip(1) =~= all.skip(i + 1));
            }
            i = i + 1;
        }
        proof {
            if i < m@.len() {
                assert(all.skip(i as int)[0] == (m@[i as int].0@, m@[i as int].1@));
            }
            assert(place(all, k@) == i);
        }
        if i < m.len() && text::same(&m[i].0, k) {
            m.set(i, (k.to_string(), v));
            proof {
                assert(members(m@) =~= all.update(i as int, (k@, v@)));
            }
        } else {
            m.insert(i, (k.to_string(), v));
            proof {
                assert(members(m@) =~= all.insert(i as int, (k@, v@)));
            }
        }
        proof {
            lemma_obj(m);
        }
        Json::Obj(m)
    }

    pub fn str(s: &str) -> (r: Json)
        ensures
            r@ == JsonV::Str(s@),
    {
        Json::Str(s.to_string())
    }

    pub fn num(i: i64) -> (r: Json)
        ensures
            r@ == JsonV::Int(i as int),
    {
        Json::Int(i as i128)
    }

    /// A string, or null.
    pub fn opt(o: &Option<String>) -> (r: Json)
        ensures
            r@ == opt_str(text::opt_text(*o)),
    {
        match o {
            Some(s) => Json::str(s),
            None => Json::Null,
        }
    }

    /// A number, or null.
    pub fn opt_u32(o: Option<u32>) -> (r: Json)
        ensures
            r@ == opt_num(o),
    {
        match o {
            Some(n) => Json::Int(n as i128),
            None => Json::Null,
        }
    }

    /// A number, or null.
    pub fn opt_usize(o: Option<usize>) -> (r: Json)
        ensures
            r@ == opt_num(o),
    {
        match o {
            Some(n) => Json::Int(n as i128),
            None => Json::Null,
        }
    }

    /// A truth value, or null.
    pub fn opt_truth(o: Option<bool>) -> (r: Json)
        ensures
            r@ == opt_bool(o),
    {
        match o {
            Some(b) => Json::Bool(b),
            None => Json::Null,
        }
    }

    /// An array of strings.
    pub fn strs(v: &Vec<String>) -> (r: Json)
        ensures
            r@ == str_list(text::views(v@)),
    {
        let mut out: Vec<Json> = Vec::new();
        let mut i: usize = 0;
        while i < v.len()
            invariant
                i <= v@.len(),
                out@.len() == i,
                forall|k: int| 0 <= k < i ==> (#[trigger] out@[k])@ == JsonV::Str(v@[k]@),
            decreases v@.len() - i,
        {
            out.push(Json::Str(v[i].clone()));
            i = i + 1;
        }
        proof {
            lemma_arr(out);
            assert(text::views(out@) =~= text::views(v@).map_values(|t: Text| JsonV::Str(t)));
        }
        Json::Arr(out)
    }

    /// An array of one element.
    pub fn one(x: Json) -> (r: Json)
        ensures
            r@ == JsonV::Arr(seq![x@]),
    {
        let mut v: Vec<Json> = Vec::new();
        v.push(x);
        proof {
            lemma_arr(v);
            assert(text::views(v@) =~= seq![x@]);
        }
        Json::Arr(v)
    }

    // ------------------------------------------------------------------ reading

    /// The member named `k`, of an object that has it.
    pub fn get(&self, k: &str) -> (r: Option<&Json>)
        ensures
            match r {
                Some(v) => self@.get(k@) == Some(v@),
                None => self@.get(k@) is None,
            },
    {
        match self {
            Json::Obj(m) => {
                proof {
                    lemma_obj(*m);
                }
                let ghost all = members(m@);
                let mut i: usize = 0;
                proof {
                    assert(all.skip(0) =~= all);
                }
                while i < m.len()
                    invariant
                        i <= m@.len(),
                        self@ == JsonV::Obj(all),
                        all == members(m@),
                        member(all, k@) == member(all.skip(i as int), k@),
                    decreases m@.len() - i,
                {
                    proof {
                        assert(all.skip(i as int)[0] == (m@[i as int].0@, m@[i as int].1@));
                        assert(all.skip(i as int).skip(1) =~= all.skip(i + 1));
                    }
                    if text::same(&m[i].0, k) {
                        return Some(&m[i].1);
                    }
                    i = i + 1;
                }
                None
            },
            _ => None,
        }
    }

    /// The member named `k`, or null.
    pub fn at(&self, k: &str) -> (r: &Json)
        ensures
            r@ == self@.at(k@),
    {
        match self.get(k) {
            Some(v) => v,
            None => &Json::Null,
        }
    }

    /// The element at position `i` of an array, or null.
    pub fn nth(&self, i: usize) -> (r: &Json)
        ensures
            r@ == self@.nth(i as int),
    {
        match self {
            Json::Arr(v) => {
                proof {
                    lemma_arr(*v);
                }
                if i < v.len() {
                    &v[i]
                } else {
                    &Json::Null
                }
            },
            _ => &Json::Null,
        }
    }

    pub fn as_str(&self) -> (r: Option<&str>)
        ensures
            match r {
                Some(s) => self@ == JsonV::Str(s@),
                None => !(self@ is Str),
            },
    {
        match self {
            Json::Str(s) => Some(s.as_str()),
            _ => None,
        }
    }

    /// The text of a string, if it is one.
    pub fn as_text(&self) -> (r: Option<String>)
        ensures
            text::opt_text(r) == self@.as_text(),
    {
        match self {
            Json::Str(s) => Some(s.clone()),
            _ => None,
        }
    }

    /// The text of a string, or `d` of anything else.
    pub fn text_or(&self, d: &str) -> (r: String)
        ensures
            r@ == self@.text_or(d@),
    {
        match self {
            Json::Str(s) => s.clone(),
            _ => d.to_string(),
        }
    }

    /// The text of a string; nothing of anything else.
    pub fn text(&self) -> (r: String)
        ensures
            r@ == self@.text(),
    {
        match self {
            Json::Str(s) => s.clone(),
            _ => String::new(),
        }
    }

    /// Whether this is the string `s`.
    pub fn is_str(&self, s: &str) -> (r: bool)
        ensures
            r == (self@ == JsonV::Str(s@)),
    {
        match self {
            Json::Str(x) => text::same(x, s),
            _ => false,
        }
    }

    pub fn as_i64(&self) -> (r: Option<i64>)
        ensures
            match r {
                Some(i) => self@.as_i64() == Some(i as int),
                None => self@.as_i64() is None,
            },
    {
        match self {
            Json::Int(i) => {
                if i64::MIN as i128 <= *i && *i <= i64::MAX as i128 {
                    Some(*i as i64)
                } else {
                    None
                }
            },
            _ => None,
        }
    }

    pub fn as_u64(&self) -> (r: Option<u64>)
        ensures
            match r {
                Some(i) => self@.as_u64() == Some(i as nat),
                None => self@.as_u64() is None,
            },
    {
        match self {
            Json::Int(i) => {
                if 0 <= *i && *i <= u64::MAX as i128 {
                    Some(*i as u64)
                } else {
                    None
                }
            },
            _ => None,
        }
    }

    pub fn as_bool(&self) -> (r: Option<bool>)
        ensures
            r == self@.as_bool(),
    {
        match self {
            Json::Bool(b) => Some(*b),
            _ => None,
        }
    }

    /// Whether two values are the same.
    pub fn same(&self, other: &Json) -> (r: bool)
        ensures
            r == (self@ == other@),
        decreases self,
    {
        match (self, other) {
            (Json::Null, Json::Null) => true,
            (Json::Bool(a), Json::Bool(b)) => *a == *b,
            (Json::Int(a), Json::Int(b)) => *a == *b,
            (Json::Float(a), Json::Float(b)) => text::same(a, b),
            (Json::Str(a), Json::Str(b)) => text::same(a, b),
            (Json::Arr(a), Json::Arr(b)) => {
                proof {
                    lemma_arr(*a);
                    lemma_arr(*b);
                }
                let ghost x = text::views(a@);
                let ghost y = text::views(b@);
                if a.len() != b.len() {
                    proof {
                        assert(x.len() != y.len());
                    }
                    return false;
                }
                let mut i: usize = 0;
                while i < a.len()
                    invariant
                        self == Json::Arr(*a),
                        self@ == JsonV::Arr(x),
                        other@ == JsonV::Arr(y),
                        x == text::views(a@),
                        y == text::views(b@),
                        a@.len() == b@.len(),
                        i <= a@.len(),
                        forall|k: int| 0 <= k < i ==> #[trigger] x[k] == y[k],
                    decreases a@.len() - i,
                {
                    proof {
                        assert(decreases_to!(*self => (*self)->Arr_0));
                        assert(decreases_to!(a@ => a@[i as int]));
                        assert(x[i as int] == a@[i as int]@);
                        assert(y[i as int] == b@[i as int]@);
                    }
                    if !a[i].same(&b[i]) {
                        return false;
                    }
                    i = i + 1;
                }
                proof {
                    assert(x =~= y);
                }
                true
            },
            (Json::Obj(a), Json::Obj(b)) => {
                proof {
                    lemma_obj(*a);
                    lemma_obj(*b);
                }
                let ghost x = members(a@);
                let ghost y = members(b@);
                if a.len() != b.len() {
                    proof {
                        assert(x.len() != y.len());
                    }
                    return false;
                }
                let mut i: usize = 0;
                while i < a.len()
                    invariant
                        self == Json::Obj(*a),
                        self@ == JsonV::Obj(x),
                        other@ == JsonV::Obj(y),
                        x == members(a@),
                        y == members(b@),
                        a@.len() == b@.len(),
                        i <= a@.len(),
                        forall|k: int| 0 <= k < i ==> #[trigger] x[k] == y[k],
                    decreases a@.len() - i,
                {
                    proof {
                        assert(decreases_to!(*self => (*self)->Obj_0));
                        assert(decreases_to!(a@ => a@[i as int]));
                        assert(decreases_to!(a@[i as int] => a@[i as int].1));
                        assert(x[i as int] == (a@[i as int].0@, a@[i as int].1@));
                        assert(y[i as int] == (b@[i as int].0@, b@[i as int].1@));
                    }
                    if !text::same(&a[i].0, &b[i].0) || !a[i].1.same(&b[i].1) {
                        return false;
                    }
                    i = i + 1;
                }
                proof {
                    assert(x =~= y);
                }
                true
            },
            _ => false,
        }
    }

    pub fn is_null(&self) -> (r: bool)
        ensures
            r == (self@ is Null),
    {
        match self {
            Json::Null => true,
            _ => false,
        }
    }
}

// ---------------------------------------------------------------------- text

/// One hexadecimal digit.
pub open spec fn hex(d: nat) -> char {
    if d < 10 {
        ((48 + d) as u8) as char
    } else {
        ((87 + d) as u8) as char
    }
}

/// How a character stands inside a JSON string.
pub open spec fn escaped(c: char) -> Text {
    if c == '"' {
        seq!['\\', '"']
    } else if c == '\\' {
        seq!['\\', '\\']
    } else if c == '\n' {
        seq!['\\', 'n']
    } else if c == '\r' {
        seq!['\\', 'r']
    } else if c == '\t' {
        seq!['\\', 't']
    } else if c as u32 == 8 {
        seq!['\\', 'b']
    } else if c as u32 == 12 {
        seq!['\\', 'f']
    } else if (c as u32) < 32 {
        seq!['\\', 'u', '0', '0', hex((c as nat) / 16), hex((c as nat) % 16)]
    } else {
        seq![c]
    }
}

/// The characters of `s` as they stand inside a JSON string.
pub open spec fn escapes(s: Text) -> Text
    decreases s.len(),
{
    if s.len() == 0 {
        Seq::empty()
    } else {
        escapes(s.drop_last()) + escaped(s.last())
    }
}

/// `s` as a JSON string literal.
pub open spec fn quoted(s: Text) -> Text {
    seq!['"'] + escapes(s) + seq!['"']
}

/// `serde_json::to_string` of a string: the text between double quotes, in which a quote, a
/// backslash and the control characters below U+0020 are escaped and every other character
/// stands as it is. Writing a string into memory does not fail.
#[verifier::external_body]
pub fn js(s: &str) -> (r: String)
    ensures
        r@ == quoted(s@),
{
    serde_json::to_string(s).unwrap()
}

/// The compact JSON text of a value.
pub open spec fn json_text(j: JsonV) -> Text
    decreases j,
{
    match j {
        JsonV::Null => "null"@,
        JsonV::Bool(b) => if b {
            "true"@
        } else {
            "false"@
        },
        JsonV::Int(i) => text::dec_int(i),
        JsonV::Float(s) => s,
        JsonV::Str(s) => quoted(s),
        JsonV::Arr(v) => "["@ + text::joined(json_texts(v), ","@) + "]"@,
        JsonV::Obj(m) => "{"@ + text::joined(member_texts(m), ","@) + "}"@,
    }
}

/// The compact texts of the elements of an array.
pub open spec fn json_texts(v: Seq<JsonV>) -> Seq<Text>
    decreases v,
{
    Seq::new(
        v.len(),
        |i: int|
            if 0 <= i < v.len() {
                json_text(v[i])
            } else {
                Seq::empty()
            },
    )
}

/// The compact texts of the members of an object.
pub open spec fn member_texts(m: Seq<(Text, JsonV)>) -> Seq<Text>
    decreases m,
{
    Seq::new(
        m.len(),
        |i: int|
            if 0 <= i < m.len() {
                quoted(m[i].0) + ":"@ + json_text(m[i].1)
            } else {
                Seq::empty()
            },
    )
}

impl Json {
    /// The compact JSON text.
    pub fn to_text(&self) -> (r: String)
        ensures
            r@ == json_text(self@),
        decreases self,
    {
        match self {
            Json::Null => "null".to_string(),
            Json::Bool(b) => if *b {
                "true".to_string()
            } else {
                "false".to_string()
            },
            Json::Int(i) => text::decimal_int(*i),
            Json::Float(s) => s.clone(),
            Json::Str(s) => js(s),
            Json::Arr(v) => {
                let mut parts: Vec<String> = Vec::new();
                let mut i: usize = 0;
                while i < v.len()
                    invariant
                        self == Json::Arr(*v),
                        i <= v@.len(),
                        parts@.len() == i,
                        forall|k: int| 0 <= k < i ==> (#[trigger] parts@[k])@ == json_text(v@[k]@),
                    decreases v@.len() - i,
                {
                    proof {
                        assert(decreases_to!(*self => (*self)->Arr_0));
                        assert(decreases_to!(v@ => v@[i as int]));
                    }
                    let x = v[i].to_text();
                    parts.push(x);
                    i = i + 1;
                }
                proof {
                    lemma_arr(*v);
                    assert(text::views(parts@) =~= json_texts(text::views(v@)));
                }
                let mut s = "[".to_string();
                s.append(&text::join(&parts, ","));
                s.append("]");
                s
            },
            Json::Obj(v) => {
                let mut parts: Vec<String> = Vec::new();
                let mut i: usize = 0;
                while i < v.len()
                    invariant
                        self == Json::Obj(*v),
                        i <= v@.len(),
                        parts@.len() == i,
                        forall|k: int|
                            0 <= k < i ==> (#[trigger] parts@[k])@ == quoted(v@[k].0@) + ":"@ + json_text(v@[k].1@),
                    decreases v@.len() - i,
                {
                    proof {
                        assert(decreases_to!(*self => (*self)->Obj_0));
                        assert(decreases_to!(v@ => v@[i as int]));
                        assert(decreases_to!(v@[i as int] => v@[i as int].1));
                    }
                    let mut x = js(&v[i].0);
                    x.append(":");
                    let y = v[i].1.to_text();
                    x.append(&y);
                    parts.push(x);
                    i = i + 1;
                }
                proof {
                    lemma_obj(*v);
                    assert(text::views(parts@) =~= member_texts(members(v@)));
                }
                let mut s = "{".to_string();
                s.append(&text::join(&parts, ","));
                s.append("}");
                s
            },
        }
    }
}

/// What serde_json prints, indented, of the value that a JSON text holds; none where the text holds
/// no value.
pub uninterp spec fn indented_text(compact: Text) -> Option<Text>;

/// `serde_json::from_str` and `serde_json::to_string_pretty`: the value that a JSON text holds,
/// printed again over several lines, a function of the text alone. No value where the text is not
/// JSON, or is nested deeper than serde_json reads. Printing a value into memory does not fail. How
/// the lines are set is left unsaid.
#[verifier::external_body]
fn indent(compact: &str) -> (r: Option<String>)
    ensures
        text::opt_text(r) == indented_text(compact@),
{
    match serde_json::from_str::<serde_json::Value>(compact) {
        Ok(v) => Some(serde_json::to_string_pretty(&v).unwrap()),
        Err(_) => None,
    }
}

/// The indented text of a value; its compact text where it cannot be printed that way.
pub open spec fn pretty_text(j: JsonV) -> Text {
    match indented_text(json_text(j)) {
        Some(t) => t,
        None => json_text(j),
    }
}

impl Json {
    /// The indented JSON text.
    pub fn pretty(&self) -> (r: String)
        ensures
            r@ == pretty_text(self@),
    {
        let compact = self.to_text();
        match indent(&compact) {
            Some(t) => t,
            None => compact,
        }
    }
}

/// A digit other than zero stands in the text before an exponent.
pub open spec fn nonzero_digits(s: Text) -> bool
    decreases s.len(),
{
    s.len() > 0 && s[0] != 'e' && s[0] != 'E' && (('1' <= s[0] <= '9') || nonzero_digits(s.skip(1)))
}

/// Whether a number's text has a digit other than zero from a place on, before its exponent.
pub fn has_nonzero(v: &Vec<char>, from: usize) -> (r: bool)
    requires
        from <= v@.len(),
    ensures
        r == nonzero_digits(v@.skip(from as int)),
{
    let mut i: usize = from;
    while i < v.len()
        invariant
            from <= i <= v@.len(),
            nonzero_digits(v@.skip(from as int)) == nonzero_digits(v@.skip(i as int)),
        decreases v@.len() - i,
    {
        proof {
            assert(v@.skip(i as int).skip(1) =~= v@.skip(i + 1));
        }
        if v[i] == 'e' || v[i] == 'E' {
            return false;
        }
        if '1' <= v[i] && v[i] <= '9' {
            return true;
        }
        i = i + 1;
    }
    false
}

impl Json {
    /// The elements of a list; of anything else there are none.
    pub fn elements(&self) -> (r: Vec<Json>)
        ensures
            text::views(r@) == self@.elements(),
    {
        let mut out: Vec<Json> = Vec::new();
        match self {
            Json::Arr(v) => {
                let mut i: usize = 0;
                while i < v.len()
                    invariant
                        i <= v@.len(),
                        out@.len() == i,
                        forall|k: int| 0 <= k < i ==> (#[trigger] out@[k])@ == v@[k]@,
                    decreases v@.len() - i,
                {
                    out.push(v[i].clone());
                    i = i + 1;
                }
                proof {
                    lemma_arr(*v);
                    assert(text::views(out@) =~= text::views(v@));
                }
            },
            _ => {
                proof {
                    assert(text::views(out@) =~= Seq::<JsonV>::empty());
                }
            },
        }
        out
    }
}

/// The value of a member among one member more: the first of its name counts.
pub proof fn lemma_member_push(m: Seq<(Text, JsonV)>, x: (Text, JsonV), k: Text)
    ensures
        member(m.push(x), k) == match member(m, k) {
            Some(v) => Some(v),
            None => if x.0 == k {
                Some(x.1)
            } else {
                None
            },
        },
    decreases m.len(),
{
    if m.len() == 0 {
        assert(member(m.push(x).skip(1), k) is None);
    } else {
        assert(m.push(x).skip(1) =~= m.skip(1).push(x));
        lemma_member_push(m.skip(1), x, k);
    }
}

/// The value of a member of an object with one member more.
pub broadcast proof fn lemma_with_get(j: JsonV, k: Text, v: JsonV, name: Text)
    requires
        j is Obj,
    ensures
        #[trigger] j.with(k, v).get(name) == match j.get(name) {
            Some(x) => Some(x),
            None => if k == name {
                Some(v)
            } else {
                None
            },
        },
{
    lemma_member_push(j->Obj_0, (k, v), name);
}

pub broadcast proof fn lemma_with_at(j: JsonV, k: Text, v: JsonV, name: Text)
    requires
        j is Obj,
    ensures
        #[trigger] j.with(k, v).at(name) == if j.get(name) is Some {
            j.at(name)
        } else if k == name {
            v
        } else {
            JsonV::Null
        },
{
    lemma_member_push(j->Obj_0, (k, v), name);
}

pub broadcast group group_with {
    lemma_with_get,
    lemma_with_at,
}

/// A text has a digit other than zero before an exponent where one of the digits 1 to 9 stands in it, and
/// no `e` before that.
pub proof fn law_nonzero_digits(s: Text)
    ensures
        nonzero_digits(s) == exists|i: int|
            0 <= i < s.len() && '1' <= #[trigger] s[i] <= '9' && forall|k: int|
                0 <= k < i ==> #[trigger] s[k] != 'e' && s[k] != 'E',
    decreases s.len(),
{
    if s.len() > 0 {
        let t = s.skip(1);
        law_nonzero_digits(t);
        if nonzero_digits(t) {
            let i = choose|i: int|
                0 <= i < t.len() && '1' <= #[trigger] t[i] <= '9' && forall|k: int|
                    0 <= k < i ==> #[trigger] t[k] != 'e' && t[k] != 'E';
            assert(s[i + 1] == t[i]);
            if s[0] != 'e' && s[0] != 'E' {
                assert forall|k: int| 0 <= k < i + 1 implies #[trigger] s[k] != 'e' && s[k] != 'E' by {
                    if k > 0 {
                        assert(t[k - 1] == s[k]);
                    }
                }
                assert('1' <= s[i + 1] <= '9');
            }
        }
        if exists|i: int|
            0 <= i < s.len() && '1' <= #[trigger] s[i] <= '9' && forall|k: int|
                0 <= k < i ==> #[trigger] s[k] != 'e' && s[k] != 'E' {
            let i = choose|i: int|
                0 <= i < s.len() && '1' <= #[trigger] s[i] <= '9' && forall|k: int|
                    0 <= k < i ==> #[trigger] s[k] != 'e' && s[k] != 'E';
            if i > 0 {
                assert(s[0] != 'e' && s[0] != 'E');
                assert(t[i - 1] == s[i]);
                assert forall|k: int| 0 <= k < i - 1 implies #[trigger] t[k] != 'e' && t[k] != 'E' by {
                    assert(s[k + 1] == t[k]);
                }
                assert('1' <= t[i - 1] <= '9');
            }
        }
    }
}

// ---------------------------------------------------------------------- laws of JSON texts

/// The text of a value: of the plain ones what they are, of a string its literal, of an array its elements'
/// texts, each of them, in order, with commas between, and of an object its members', each behind its name
/// and a colon.
pub proof fn law_json_texts(v: Seq<JsonV>, m: Seq<(Text, JsonV)>, i: int, k: int)
    ensures
        json_text(JsonV::Null) == "null"@,
        json_text(JsonV::Bool(true)) == "true"@ && json_text(JsonV::Bool(false)) == "false"@,
        json_text(JsonV::Int(i)) == text::dec_int(i),
        json_text(JsonV::Arr(v)) == "["@ + text::joined(json_texts(v), ","@) + "]"@,
        json_texts(v).len() == v.len(),
        0 <= k < v.len() ==> json_texts(v)[k] == json_text(v[k]),
        json_text(JsonV::Obj(m)) == "{"@ + text::joined(member_texts(m), ","@) + "}"@,
        member_texts(m).len() == m.len(),
        0 <= k < m.len() ==> member_texts(m)[k] == quoted(m[k].0) + ":"@ + json_text(m[k].1),
{
    assert(json_text(JsonV::Arr(v)) == "["@ + text::joined(json_texts(v), ","@) + "]"@);
    assert(json_text(JsonV::Obj(m)) == "{"@ + text::joined(member_texts(m), ","@) + "}"@);
    if 0 <= k < v.len() {
        assert(json_texts(v)[k] == json_text(v[k]));
    }
    if 0 <= k < m.len() {
        assert(member_texts(m)[k] == quoted(m[k].0) + ":"@ + json_text(m[k].1));
    }
}

/// A string stands between quotes, character by character; quotes, backslashes and control characters are
/// escaped, and every other character stands as it is.
pub proof fn law_string_literals(s: Text, c: char)
    ensures
        quoted(Seq::empty()) == seq!['"', '"'],
        quoted(s) == seq!['"'] + escapes(s) + seq!['"'],
        escapes(s.push(c)) == escapes(s) + escaped(c),
        c != '"' && c != '\\' && c as u32 >= 32 ==> escaped(c) == seq![c],
        c == '"' || c == '\\' ==> escaped(c) == seq!['\\', c],
        c == '\n' ==> escaped(c) == seq!['\\', 'n'],
        c == '\r' ==> escaped(c) == seq!['\\', 'r'],
        c == '\t' ==> escaped(c) == seq!['\\', 't'],
        (c as u32) < 32 ==> escaped(c).len() >= 2 && escaped(c)[0] == '\\',
{
    assert(s.push(c).drop_last() =~= s);
    assert(quoted(Seq::<char>::empty()) =~= seq!['"', '"']);
}

/// A member is read by its name, the first of that name; where there is none of it, and of anything but an
/// object, nothing is read.
pub proof fn law_members_are_read(m: Seq<(Text, JsonV)>, k: Text, v: JsonV, i: int)
    ensures
        0 <= i < m.len() && m[i].0 == k && (forall|j: int| 0 <= j < i ==> (#[trigger] m[j]).0 != k) ==> JsonV::Obj(m).get(k)
            == Some(m[i].1) && JsonV::Obj(m).at(k) == m[i].1,
        (forall|j: int| 0 <= j < m.len() ==> (#[trigger] m[j]).0 != k) ==> JsonV::Obj(m).get(k) is None && JsonV::Obj(m).at(
            k,
        ) == JsonV::Null,
        !(v is Obj) ==> v.get(k) is None && v.at(k) == JsonV::Null,
    decreases m.len(),
{
    if m.len() > 0 {
        let n = m.skip(1);
        law_members_are_read(n, k, v, i - 1);
        assert forall|j: int| 0 <= j < n.len() implies #[trigger] n[j] == m[j + 1] by {}
        if 0 < i < m.len() && m[i].0 == k && (forall|j: int| 0 <= j < i ==> (#[trigger] m[j]).0 != k) {
            assert(m[0].0 != k);
            assert(n[i - 1] == m[i]);
        }
        if forall|j: int| 0 <= j < m.len() ==> (#[trigger] m[j]).0 != k {
            assert(m[0].0 != k);
        }
    }
}

/// An element is read by its position; a text, a truth value or a number is read of what it is.
pub proof fn law_values_are_read(v: Seq<JsonV>, j: JsonV, s: Text, d: Text, i: int, b: bool)
    ensures
        0 <= i < v.len() ==> JsonV::Arr(v).nth(i) == v[i],
        i < 0 || i >= v.len() ==> JsonV::Arr(v).nth(i) == JsonV::Null,
        !(j is Arr) ==> j.nth(i) == JsonV::Null && j.elements().len() == 0,
        JsonV::Arr(v).elements() == v,
        JsonV::Str(s).text() == s && JsonV::Str(s).text_or(d) == s && JsonV::Str(s).as_text() == Some(s),
        !(j is Str) ==> j.text_or(d) == d && j.text().len() == 0 && j.as_text() is None,
        JsonV::Bool(b).as_bool() == Some(b),
        !(j is Bool) ==> j.as_bool() is None,
        i64::MIN <= i <= i64::MAX ==> JsonV::Int(i).as_i64() == Some(i),
        0 <= i <= u64::MAX ==> JsonV::Int(i).as_u64() == Some(i as nat),
        i < 0 ==> JsonV::Int(i).as_u64() is None,
        !(j is Int) ==> j.as_i64() is None && j.as_u64() is None,
{
}

/// An indented text is what serde_json prints, where it can, and else the compact one.
pub proof fn law_indented_texts(j: JsonV)
    ensures
        indented_text(json_text(j)) is Some ==> pretty_text(j) == indented_text(json_text(j))->0,
        indented_text(json_text(j)) is None ==> pretty_text(j) == json_text(j),
{
}

/// What may be missing is null.
pub proof fn law_missing_is_null(t: Text, n: int, b: bool)
    ensures
        opt_str(Some(t)) == JsonV::Str(t) && opt_str(None) == JsonV::Null,
        opt_bool(Some(b)) == JsonV::Bool(b) && opt_bool(None) == JsonV::Null,
        opt_num(Some(n)) == JsonV::Int(n),
        str_list(seq![t]) == JsonV::Arr(seq![JsonV::Str(t)]),
{
    assert(str_list(seq![t])->Arr_0 =~= seq![JsonV::Str(t)]);
}

} // verus!
