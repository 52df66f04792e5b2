//! A JSON value as plain data.
use vstd::prelude::*;
use crate::text::str_eq;
use crate::seq_util::{first_where, lemma_first_where_at, lemma_first_where_none};

verus! {

/// A JSON value. Objects keep their members in order.
#[derive(Debug, PartialEq)]
pub enum Json {
    Null,
    Bool(bool),
    /// An integral number.
    Int(i128),
    /// A number with a fraction or exponent, in its JSON text form.
    Float(String),
    Str(String),
    Array(Vec<Json>),
    Object(Vec<(String, Json)>),
}

/// Position of the first member named `key`, or -1 when there is none.
pub open spec fn key_pos(fields: Seq<(String, Json)>, key: Seq<char>) -> int
    decreases fields.len(),
{
    if fields.len() == 0 {
        -1
    } else if fields[0].0@ == key {
        0
    } else {
        let p = key_pos(fields.drop_first(), key);
        if p < 0 {
            -1
        } else {
            p + 1
        }
    }
}

/// The value of the first member named `key`.
pub open spec fn member(fields: Seq<(String, Json)>, key: Seq<char>) -> Option<Json> {
    let p = key_pos(fields, key);
    if p < 0 {
        None
    } else {
        Some(fields[p].1)
    }
}

/// The member named `key` of an object; `None` for any other value.
pub open spec fn get_spec(j: Json, key: Seq<char>) -> Option<Json> {
    match j {
        Json::Object(fields) => member(fields@, key),
        _ => None,
    }
}

/// The text of a string value.
pub open spec fn str_spec(j: Option<Json>) -> Option<Seq<char>> {
    match j {
        Some(Json::Str(s)) => Some(s@),
        _ => None,
    }
}

/// `r` is `f` with the member `key` given a new value: in place when `key` is
/// already there, appended at the end otherwise. All other members stay as
/// they were.
pub open spec fn member_set(f: Seq<(String, Json)>, key: Seq<char>, r: Seq<(String, Json)>) -> bool {
    let p = key_pos(f, key);
    if p >= 0 {
        &&& r.len() == f.len()
        &&& r[p].0 == f[p].0
        &&& forall|i: int| 0 <= i < f.len() && i != p ==> r[i] == f[i]
    } else {
        &&& r.len() == f.len() + 1
        &&& r.last().0@ == key
        &&& forall|i: int| 0 <= i < f.len() ==> r[i] == f[i]
    }
}

/// `key_pos` at the first index whose name is `key`.
pub proof fn lemma_key_pos_first(fields: Seq<(String, Json)>, key: Seq<char>, i: int)
    requires
        0 <= i < fields.len(),
        fields[i].0@ == key,
        forall|j: int| 0 <= j < i ==> fields[j].0@ != key,
    ensures
        key_pos(fields, key) == i,
    decreases i,
{
    if i > 0 {
        let rest = fields.drop_first();
        assert forall|j: int| 0 <= j < i - 1 implies rest[j].0@ != key by {
            assert(rest[j] == fields[j + 1]);
        }
        assert(rest[i - 1] == fields[i]);
        lemma_key_pos_first(rest, key, i - 1);
    }
}

/// `key_pos` is -1 when no member is named `key`.
pub proof fn lemma_key_pos_absent(fields: Seq<(String, Json)>, key: Seq<char>)
    requires
        forall|j: int| 0 <= j < fields.len() ==> fields[j].0@ != key,
    ensures
        key_pos(fields, key) == -1,
    decreases fields.len(),
{
    if fields.len() > 0 {
        let rest = fields.drop_first();
        assert forall|j: int| 0 <= j < rest.len() implies rest[j].0@ != key by {
            assert(rest[j] == fields[j + 1]);
        }
        lemma_key_pos_absent(rest, key);
    }
}

/// A found position has the key, and no earlier member has it.
pub proof fn lemma_key_pos_props(fields: Seq<(String, Json)>, key: Seq<char>)
    ensures
        -1 <= key_pos(fields, key) < fields.len(),
        key_pos(fields, key) >= 0 ==> fields[key_pos(fields, key)].0@ == key,
        forall|j: int|
            0 <= j < fields.len() && (key_pos(fields, key) < 0 || j < key_pos(fields, key))
                ==> fields[j].0@ != key,
    decreases fields.len(),
{
    if fields.len() > 0 {
        let rest = fields.drop_first();
        lemma_key_pos_props(rest, key);
        assert forall|j: int|
            0 <= j < fields.len() && (key_pos(fields, key) < 0 || j < key_pos(fields, key))
                implies fields[j].0@ != key by {
            if j > 0 {
                assert(fields[j] == rest[j - 1]);
            }
        }
        if key_pos(fields, key) > 0 {
            assert(fields[key_pos(fields, key)] == rest[key_pos(fields, key) - 1]);
        }
    }
}

/// After `member_set`, the member `key` is found where it was written.
pub proof fn lemma_member_set_pos(f: Seq<(String, Json)>, key: Seq<char>, r: Seq<(String, Json)>)
    requires
        member_set(f, key, r),
    ensures
        key_pos(f, key) >= 0 ==> key_pos(r, key) == key_pos(f, key),
        key_pos(f, key) < 0 ==> key_pos(r, key) == f.len(),
{
    lemma_key_pos_props(f, key);
    let p = key_pos(f, key);
    if p >= 0 {
        lemma_key_pos_first(r, key, p);
    } else {
        lemma_key_pos_first(r, key, f.len() as int);
    }
}

/// Position of the first member named `key`.
pub fn find_member(fields: &Vec<(String, Json)>, key: &str) -> (r: Option<usize>)
    ensures
        match r {
            Some(i) => i < fields@.len() && key_pos(fields@, key@) == i,
            None => key_pos(fields@, key@) == -1,
        },
{
    let n = fields.len();
    let mut i: usize = 0;
    while i < n
        invariant
            n == fields@.len(),
            i <= n,
            forall|j: int| 0 <= j < i ==> fields@[j].0@ != key@,
        decreases n - i,
    {
        if str_eq(fields[i].0.as_str(), key) {
            proof {
                lemma_key_pos_first(fields@, key@, i as int);
            }
            return Some(i);
        }
        i = i + 1;
    }
    proof {
        lemma_key_pos_absent(fields@, key@);
    }
    None
}

/// Give the member `key` the value `v`, in place when it exists and at the
/// end otherwise.
pub fn set_member(fields: &mut Vec<(String, Json)>, key: &str, v: Json)
    ensures
        member_set(old(fields)@, key@, final(fields)@),
        member(final(fields)@, key@) == Some(v),
{
    proof {
        lemma_key_pos_props(old(fields)@, key@);
    }
    match find_member(fields, key) {
        Some(p) => {
            let name = fields[p].0.clone();
            fields.set(p, (name, v));
        },
        None => {
            fields.push((key.to_owned(), v));
        },
    }
    proof {
        lemma_member_set_pos(old(fields)@, key@, fields@);
    }
}

impl Json {
    /// The member `key` of an object; `None` for other values and absent keys.
    pub fn get(&self, key: &str) -> (r: Option<&Json>)
        ensures
            match r {
                Some(v) => get_spec(*self, key@) == Some(*v),
                None => get_spec(*self, key@) is None,
            },
    {
        match self {
            Json::Object(fields) => match find_member(fields, key) {
                Some(p) => Some(&fields[p].1),
                None => None,
            },
            _ => None,
        }
    }

    /// The text of a string value.
    pub fn as_str(&self) -> (r: Option<&str>)
        ensures
            match r {
                Some(s) => str_spec(Some(*self)) == Some(s@),
                None => str_spec(Some(*self)) is None,
            },
    {
        match self {
            Json::Str(s) => Some(s.as_str()),
            _ => None,
        }
    }

    /// The value of a boolean.
    pub fn as_bool(&self) -> (r: Option<bool>)
        ensures
            r == (match *self {
                Json::Bool(b) => Some(b),
                _ => None,
            }),
    {
        match self {
            Json::Bool(b) => Some(*b),
            _ => None,
        }
    }

    /// The value of a non-negative integer.
    pub fn as_u64(&self) -> (r: Option<u64>)
        ensures
            r == (match *self {
                Json::Int(n) => if 0 <= n <= u64::MAX {
                    Some(n as u64)
                } else {
                    None
                },
                _ => None,
            }),
    {
        match self {
            Json::Int(n) => if 0 <= *n && *n <= 0xffff_ffff_ffff_ffff {
                Some(*n as u64)
            } else {
                None
            },
            _ => None,
        }
    }

    /// The elements of an array.
    pub fn as_array(&self) -> (r: Option<&Vec<Json>>)
        ensures
            match *self {
                Json::Array(v) => r == Some(&v),
                _ => r is None,
            },
    {
        match self {
            Json::Array(v) => Some(v),
            _ => None,
        }
    }
}


/// A JSON value as mathematical data: the same shape with text as character
/// sequences. Two values with the same view hold the same JSON.
pub enum JsonView {
    Null,
    Bool(bool),
    Int(i128),
    Float(Seq<char>),
    Str(Seq<char>),
    Array(Seq<JsonView>),
    Object(Seq<(Seq<char>, JsonView)>),
}

/// The view of a JSON value.
pub open spec fn jv(j: Json) -> JsonView
    decreases j,
{
    match j {
        Json::Null => JsonView::Null,
        Json::Bool(b) => JsonView::Bool(b),
        Json::Int(n) => JsonView::Int(n),
        Json::Float(s) => JsonView::Float(s@),
        Json::Str(s) => JsonView::Str(s@),
        Json::Array(items) => JsonView::Array(
            Seq::new(
                items@.len(),
                |i: int|
                    if 0 <= i < items@.len() {
                        jv(items@[i])
                    } else {
                        JsonView::Null
                    },
            ),
        ),
        Json::Object(fields) => JsonView::Object(
            Seq::new(
                fields@.len(),
                |i: int|
                    if 0 <= i < fields@.len() {
                        (fields@[i].0@, jv(fields@[i].1))
                    } else {
                        (Seq::empty(), JsonView::Null)
                    },
            ),
        ),
    }
}

impl Json {
    /// A copy of the value.
    pub fn deep_clone(&self) -> (r: Json)
        ensures
            jv(r) == jv(*self),
        decreases self,
    {
        match self {
            Json::Null => Json::Null,
            Json::Bool(b) => Json::Bool(*b),
            Json::Int(n) => Json::Int(*n),
            Json::Float(s) => Json::Float(s.clone()),
            Json::Str(s) => Json::Str(s.clone()),
            Json::Array(items) => {
                let mut out: Vec<Json> = Vec::new();
                let mut i: usize = 0;
                while i < items.len()
                    invariant
                        *self is Array,
                        (*self)->Array_0 == *items,
                        i <= items@.len(),
                        out@.len() == i,
                        forall|k: int| 0 <= k < i ==> jv(#[trigger] out@[k]) == jv(items@[k]),
                    decreases items@.len() - i,
                {
                    proof {
                        vstd::std_specs::vec::axiom_vec_index_decreases(*items, i as int);
                        assert(decreases_to!(*self => (*self)->Array_0));
                    }
                    out.push(items[i].deep_clone());
                    i = i + 1;
                }
                let r = Json::Array(out);
                proof {
                    let x = jv(r)->Array_0;
                    let y = jv(*self)->Array_0;
                    assert(x.len() == y.len());
                    assert forall|k: int| 0 <= k < x.len() implies x[k] == y[k] by {
                        assert(x[k] == jv(out@[k]));
                        assert(y[k] == jv(items@[k]));
                    }
                    assert(x =~= y);
                }
                r
            },
            Json::Object(fields) => {
                let mut out: Vec<(String, Json)> = Vec::new();
                let mut i: usize = 0;
                while i < fields.len()
                    invariant
                        *self is Object,
                        (*self)->Object_0 == *fields,
                        i <= fields@.len(),
                        out@.len() == i,
                        forall|k: int|
                            0 <= k < i ==> (#[trigger] out@[k]).0@ == fields@[k].0@ && jv(out@[k].1)
                                == jv(fields@[k].1),
                    decreases fields@.len() - i,
                {
                    proof {
                        vstd::std_specs::vec::axiom_vec_index_decreases(*fields, i as int);
                        assert(decreases_to!(*self => (*self)->Object_0));
                        assert(decreases_to!(fields@[i as int] => fields@[i as int].1));
                    }
                    let v = fields[i].1.deep_clone();
                    out.push((fields[i].0.clone(), v));
                    i = i + 1;
                }
                let r = Json::Object(out);
                proof {
                    let x = jv(r)->Object_0;
                    let y = jv(*self)->Object_0;
                    assert(x.len() == y.len());
                    assert forall|k: int| 0 <= k < x.len() implies x[k] == y[k] by {
                        assert(x[k] == (out@[k].0@, jv(out@[k].1)));
                        assert(y[k] == (fields@[k].0@, jv(fields@[k].1)));
                    }
                    assert(x =~= y);
                }
                r
            },
        }
    }
}


pub open spec fn named(key: Seq<char>) -> spec_fn((Seq<char>, JsonView)) -> bool {
    |m: (Seq<char>, JsonView)| m.0 == key
}

/// The member `key` of an object view; `None` for other values.
pub open spec fn vget(v: JsonView, key: Seq<char>) -> Option<JsonView> {
    match v {
        JsonView::Object(f) => {
            let p = first_where(f, named(key));
            if p < 0 {
                None
            } else {
                Some(f[p].1)
            }
        },
        _ => None,
    }
}

/// The text of a string view.
pub open spec fn vstr(v: Option<JsonView>) -> Option<Seq<char>> {
    match v {
        Some(JsonView::Str(s)) => Some(s),
        _ => None,
    }
}

/// The value of a boolean view.
pub open spec fn vbool(v: Option<JsonView>) -> Option<bool> {
    match v {
        Some(JsonView::Bool(b)) => Some(b),
        _ => None,
    }
}

/// The value of a non-negative integer view.
pub open spec fn vu64(v: Option<JsonView>) -> Option<u64> {
    match v {
        Some(JsonView::Int(n)) => if 0 <= n <= u64::MAX {
            Some(n as u64)
        } else {
            None
        },
        _ => None,
    }
}

/// The view of an optional value.
pub open spec fn ojv(j: Option<Json>) -> Option<JsonView> {
    match j {
        Some(x) => Some(jv(x)),
        None => None,
    }
}

/// Looking up a member commutes with taking views.
pub proof fn lemma_get_view(j: Json, key: Seq<char>)
    ensures
        vget(jv(j), key) == ojv(get_spec(j, key)),
{
    match j {
        Json::Object(fields) => {
            let f = jv(j)->Object_0;
            assert(f.len() == fields@.len());
            assert forall|i: int| 0 <= i < f.len() implies #[trigger] f[i] == (
                fields@[i].0@,
                jv(fields@[i].1),
            ) by {}
            lemma_key_pos_props(fields@, key);
            let p = key_pos(fields@, key);
            if p >= 0 {
                assert forall|i: int| 0 <= i < p implies !named(key)(#[trigger] f[i]) by {
                    assert(f[i].0 == fields@[i].0@);
                }
                lemma_first_where_at(f, named(key), p);
            } else {
                assert forall|i: int| 0 <= i < f.len() implies !named(key)(#[trigger] f[i]) by {
                    assert(f[i].0 == fields@[i].0@);
                }
                lemma_first_where_none(f, named(key));
            }
        },
        _ => {},
    }
}


pub open spec fn opt_str_view(r: Option<&str>) -> Option<Seq<char>> {
    match r {
        Some(s) => Some(s@),
        None => None,
    }
}

/// The string member `key` of `v`.
pub fn field_str<'a>(v: &'a Json, key: &str) -> (r: Option<&'a str>)
    ensures
        opt_str_view(r) == vstr(vget(jv(*v), key@)),
{
    proof {
        lemma_get_view(*v, key@);
    }
    match v.get(key) {
        Some(x) => x.as_str(),
        None => None,
    }
}

/// The boolean member `key` of `v`.
pub fn field_bool(v: &Json, key: &str) -> (r: Option<bool>)
    ensures
        r == vbool(vget(jv(*v), key@)),
{
    proof {
        lemma_get_view(*v, key@);
    }
    match v.get(key) {
        Some(x) => x.as_bool(),
        None => None,
    }
}

/// The non-negative integer member `key` of `v`.
pub fn field_u64(v: &Json, key: &str) -> (r: Option<u64>)
    ensures
        r == vu64(vget(jv(*v), key@)),
{
    proof {
        lemma_get_view(*v, key@);
    }
    match v.get(key) {
        Some(x) => x.as_u64(),
        None => None,
    }
}

/// The member `key` of `v`, with its view.
pub fn field<'a>(v: &'a Json, key: &str) -> (r: Option<&'a Json>)
    ensures
        match r {
            Some(x) => vget(jv(*v), key@) == Some(jv(*x)),
            None => vget(jv(*v), key@) is None,
        },
{
    proof {
        lemma_get_view(*v, key@);
    }
    v.get(key)
}


/// The views of object members.
pub open spec fn members_view(f: Seq<(String, Json)>) -> Seq<(Seq<char>, JsonView)> {
    f.map_values(|m: (String, Json)| (m.0@, jv(m.1)))
}

/// The views of array items.
pub open spec fn items_view(items: Seq<Json>) -> Seq<JsonView> {
    items.map_values(|x: Json| jv(x))
}

pub proof fn lemma_object_view(f: Vec<(String, Json)>)
    ensures
        jv(Json::Object(f)) == JsonView::Object(members_view(f@)),
{
    let x = jv(Json::Object(f))->Object_0;
    assert(x =~= members_view(f@));
}

pub proof fn lemma_array_view(items: Vec<Json>)
    ensures
        jv(Json::Array(items)) == JsonView::Array(items_view(items@)),
{
    let x = jv(Json::Array(items))->Array_0;
    assert(x =~= items_view(items@));
}

/// A string value.
pub fn jstr(s: &str) -> (r: Json)
    ensures
        jv(r) == JsonView::Str(s@),
{
    Json::Str(s.to_owned())
}

/// An object from its members.
pub fn jobj(f: Vec<(String, Json)>) -> (r: Json)
    ensures
        jv(r) == JsonView::Object(members_view(f@)),
{
    proof {
        lemma_object_view(f);
    }
    Json::Object(f)
}


/// The value of an integer view that fits `i64`.
pub open spec fn vi64(v: Option<JsonView>) -> Option<i64> {
    match v {
        Some(JsonView::Int(n)) => if i64::MIN <= n <= i64::MAX {
            Some(n as i64)
        } else {
            None
        },
        _ => None,
    }
}

/// The integer member `key` of `v` that fits `i64`.
pub fn field_i64(v: &Json, key: &str) -> (r: Option<i64>)
    ensures
        r == vi64(vget(jv(*v), key@)),
{
    proof {
        lemma_get_view(*v, key@);
    }
    match v.get(key) {
        Some(Json::Int(n)) => if -0x8000_0000_0000_0000 <= *n && *n <= 0x7fff_ffff_ffff_ffff {
            Some(*n as i64)
        } else {
            None
        },
        _ => None,
    }
}

/// The member `key` of `v`, else its member `alt`.
pub open spec fn vget_either(v: JsonView, key: Seq<char>, alt: Seq<char>) -> Option<JsonView> {
    match vget(v, key) {
        Some(x) => Some(x),
        None => vget(v, alt),
    }
}

/// The member `key` of `v`, else its member `alt`.
pub fn field_either<'a>(v: &'a Json, key: &str, alt: &str) -> (r: Option<&'a Json>)
    ensures
        match r {
            Some(x) => vget_either(jv(*v), key@, alt@) == Some(jv(*x)),
            None => vget_either(jv(*v), key@, alt@) is None,
        },
{
    match field(v, key) {
        Some(x) => Some(x),
        None => field(v, alt),
    }
}

/// The text of an optional value.
pub fn opt_as_str<'a>(v: Option<&'a Json>) -> (r: Option<&'a str>)
    ensures
        opt_str_view(r) == vstr(opt_json_view(v)),
{
    match v {
        Some(x) => x.as_str(),
        None => None,
    }
}

pub open spec fn opt_json_view(j: Option<&Json>) -> Option<JsonView> {
    match j {
        Some(x) => Some(jv(*x)),
        None => None,
    }
}


/// Member lookup positions agree between values and their views.
pub proof fn lemma_key_pos_view(f: Seq<(String, Json)>, key: Seq<char>)
    ensures
        first_where(members_view(f), named(key)) == key_pos(f, key),
{
    let mv = members_view(f);
    lemma_key_pos_props(f, key);
    let p = key_pos(f, key);
    if p >= 0 {
        assert forall|i: int| 0 <= i < p implies !named(key)(#[trigger] mv[i]) by {
            assert(mv[i].0 == f[i].0@);
        }
        lemma_first_where_at(mv, named(key), p);
    } else {
        assert forall|i: int| 0 <= i < mv.len() implies !named(key)(#[trigger] mv[i]) by {
            assert(mv[i].0 == f[i].0@);
        }
        lemma_first_where_none(mv, named(key));
    }
}

/// The member `key` of view members set to `v`: in place, or appended.
pub open spec fn vset(f: Seq<(Seq<char>, JsonView)>, key: Seq<char>, v: JsonView) -> Seq<
    (Seq<char>, JsonView),
> {
    let p = first_where(f, named(key));
    if p >= 0 {
        f.update(p, (key, v))
    } else {
        f.push((key, v))
    }
}

/// The first member `key` of view members.
pub open spec fn vmember(f: Seq<(Seq<char>, JsonView)>, key: Seq<char>) -> Option<JsonView> {
    let p = first_where(f, named(key));
    if p < 0 {
        None
    } else {
        Some(f[p].1)
    }
}

/// `member_set` seen through views.
pub proof fn lemma_member_set_view(f: Seq<(String, Json)>, key: Seq<char>, r: Seq<(String, Json)>, v: Json)
    requires
        member_set(f, key, r),
        member(r, key) == Some(v),
    ensures
        members_view(r) == vset(members_view(f), key, jv(v)),
{
    lemma_key_pos_view(f, key);
    lemma_member_set_pos(f, key, r);
    lemma_key_pos_props(f, key);
    let p = key_pos(f, key);
    if p >= 0 {
        assert(members_view(r) =~= vset(members_view(f), key, jv(v)));
    } else {
        assert(members_view(r) =~= vset(members_view(f), key, jv(v)));
    }
}

/// `member` seen through views.
pub proof fn lemma_member_view(f: Seq<(String, Json)>, key: Seq<char>)
    ensures
        vmember(members_view(f), key) == ojv(member(f, key)),
{
    lemma_key_pos_view(f, key);
    lemma_key_pos_props(f, key);
}

} // verus!
