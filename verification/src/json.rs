//! A plain-value model of JSON documents, as hook scripts and providers
//! exchange them.
//!
//! Objects keep their members in order; looking a key up finds the last
//! member with that key, the way a parser that overwrites earlier
//! duplicates behaves.

use vstd::prelude::*;

use crate::text::str_eq;

verus! {

/// A JSON value. Numbers that are integers are kept exactly; any other
/// number is kept as the decimal text it was written with.
#[derive(Debug)]
pub enum Json {
    Null,
    Bool(bool),
    Int(i128),
    Decimal(String),
    Str(String),
    Array(Vec<Json>),
    Object(Vec<(String, Json)>),
}

/// The mathematical view of a [`Json`] value.
pub enum JsonV {
    Null,
    Bool(bool),
    Int(int),
    Decimal(Seq<char>),
    Str(Seq<char>),
    Array(Seq<JsonV>),
    Object(Seq<(Seq<char>, JsonV)>),
}

/// The view of a JSON value.
pub open spec fn jv(j: Json) -> JsonV
    decreases j,
{
    match j {
        Json::Null => JsonV::Null,
        Json::Bool(b) => JsonV::Bool(b),
        Json::Int(n) => JsonV::Int(n as int),
        Json::Decimal(s) => JsonV::Decimal(s@),
        Json::Str(s) => JsonV::Str(s@),
        Json::Array(v) => JsonV::Array(
            Seq::new(v@.len(), |i: int| if 0 <= i < v@.len() { jv(v@[i]) } else { JsonV::Null }),
        ),
        Json::Object(es) => JsonV::Object(
            Seq::new(
                es@.len(),
                |i: int|
                    if 0 <= i < es@.len() {
                        (es@[i].0@, jv(es@[i].1))
                    } else {
                        (Seq::empty(), JsonV::Null)
                    },
            ),
        ),
    }
}

/// The value of the last member of `es` whose key is `k`.
pub open spec fn entries_get(es: Seq<(Seq<char>, JsonV)>, k: Seq<char>) -> Option<JsonV>
    decreases es.len(),
{
    if es.len() == 0 {
        None
    } else if es.last().0 == k {
        Some(es.last().1)
    } else {
        entries_get(es.drop_last(), k)
    }
}

/// Member `k` of `j`, when `j` is an object that has one.
pub open spec fn jget(j: JsonV, k: Seq<char>) -> Option<JsonV> {
    match j {
        JsonV::Object(es) => entries_get(es, k),
        _ => None,
    }
}

/// The string held by `o`, when it holds one.
pub open spec fn jstr(o: Option<JsonV>) -> Option<Seq<char>> {
    match o {
        Some(JsonV::Str(s)) => Some(s),
        _ => None,
    }
}

/// The boolean held by `o`, when it holds one.
pub open spec fn jbool(o: Option<JsonV>) -> Option<bool> {
    match o {
        Some(JsonV::Bool(b)) => Some(b),
        _ => None,
    }
}

/// The integer held by `o`, when it holds one.
pub open spec fn jint(o: Option<JsonV>) -> Option<int> {
    match o {
        Some(JsonV::Int(n)) => Some(n),
        _ => None,
    }
}

/// The elements held by `o`, when it holds an array.
pub open spec fn jarr(o: Option<JsonV>) -> Option<Seq<JsonV>> {
    match o {
        Some(JsonV::Array(a)) => Some(a),
        _ => None,
    }
}

/// String member `k` of `j`.
pub open spec fn jget_str(j: JsonV, k: Seq<char>) -> Option<Seq<char>> {
    jstr(jget(j, k))
}

/// Boolean member `k` of `j`.
pub open spec fn jget_bool(j: JsonV, k: Seq<char>) -> Option<bool> {
    jbool(jget(j, k))
}

/// The view of an optional borrowed value.
pub open spec fn opt_jv(o: Option<&Json>) -> Option<JsonV> {
    match o {
        Some(x) => Some(jv(*x)),
        None => None,
    }
}

/// The view of an optional borrowed string.
pub open spec fn opt_str_view(o: Option<&String>) -> Option<Seq<char>> {
    match o {
        Some(s) => Some(s@),
        None => None,
    }
}

/// Looking a key up in a concatenation finds it in the later part first.
pub proof fn lemma_entries_get_concat(a: Seq<(Seq<char>, JsonV)>, b: Seq<(Seq<char>, JsonV)>, k: Seq<char>)
    ensures
        entries_get(a + b, k) == (match entries_get(b, k) {
            Some(v) => Some(v),
            None => entries_get(a, k),
        }),
    decreases b.len(),
{
    if b.len() == 0 {
        assert(a + b =~= a);
    } else {
        assert((a + b).drop_last() =~= a + b.drop_last());
        assert((a + b).last() == b.last());
        lemma_entries_get_concat(a, b.drop_last(), k);
    }
}

/// Looking a key up in a one-member list.
pub proof fn lemma_entries_get_single(key: Seq<char>, v: JsonV, k: Seq<char>)
    ensures
        entries_get(seq![(key, v)], k) == (if key == k { Some(v) } else { None }),
{
    let s = seq![(key, v)];
    assert(s.drop_last() =~= Seq::<(Seq<char>, JsonV)>::empty());
    assert(s.last() == (key, v));
    assert(entries_get(Seq::<(Seq<char>, JsonV)>::empty(), k) is None);
}

impl Json {
    /// Member `key` of this value, when it is an object that has one.
    pub fn get(&self, key: &str) -> (r: Option<&Json>)
        ensures
            opt_jv(r) == jget(jv(*self), key@),
    {
        match self {
            Json::Object(es) => {
                let ghost ves = match jv(*self) {
                    JsonV::Object(x) => x,
                    _ => Seq::empty(),
                };
                assert(jv(*self) is Object);
                assert(jget(jv(*self), key@) == entries_get(ves, key@));
                assert(ves.take(es@.len() as int) =~= ves);
                let mut i = es.len();
                while i > 0
                    invariant
                        i <= es@.len(),
                        ves.len() == es@.len(),
                        forall|j: int| 0 <= j < es@.len() ==> #[trigger] ves[j] == (es@[j].0@, jv(es@[j].1)),
                        entries_get(ves, key@) == entries_get(ves.take(i as int), key@),
                        jget(jv(*self), key@) == entries_get(ves, key@),
                    decreases i,
                {
                    let (k, v) = &es[i - 1];
                    let ghost t = ves.take(i as int);
                    assert(t.last() == ves[i - 1]);
                    assert(t.drop_last() =~= ves.take(i - 1));
                    if str_eq(k.as_str(), key) {
                        assert(ves[i - 1] == (es@[i - 1].0@, jv(es@[i - 1].1)));
                        assert(t.len() > 0);
                        assert(entries_get(t, key@) == Some(t.last().1));
                        assert(*v == es@[i - 1].1);
                        return Some(v);
                    }
                    assert(ves[i - 1] == (es@[i - 1].0@, jv(es@[i - 1].1)));
                    i -= 1;
                }
                assert(ves.take(0) =~= Seq::<(Seq<char>, JsonV)>::empty());
                None
            }
            _ => None,
        }
    }

    /// The string this value holds, when it is a string.
    pub fn as_str(&self) -> (r: Option<&String>)
        ensures
            opt_str_view(r) == jstr(Some(jv(*self))),
    {
        match self {
            Json::Str(s) => Some(s),
            _ => None,
        }
    }

    /// The boolean this value holds, when it is a boolean.
    pub fn as_bool(&self) -> (r: Option<bool>)
        ensures
            r == jbool(Some(jv(*self))),
    {
        match self {
            Json::Bool(b) => Some(*b),
            _ => None,
        }
    }
}

/// String member `key` of `j`.
pub fn get_str<'a>(j: &'a Json, key: &str) -> (r: Option<&'a String>)
    ensures
        opt_str_view(r) == jget_str(jv(*j), key@),
{
    match j.get(key) {
        Some(v) => v.as_str(),
        None => None,
    }
}

/// Boolean member `key` of `j`.
pub fn get_bool(j: &Json, key: &str) -> (r: Option<bool>)
    ensures
        r == jget_bool(jv(*j), key@),
{
    match j.get(key) {
        Some(v) => v.as_bool(),
        None => None,
    }
}

/// A JSON string holding the characters of `s`.
pub fn jstring(s: &str) -> (j: Json)
    ensures
        jv(j) == JsonV::Str(s@),
{
    Json::Str(s.to_string())
}

/// `[(key, Str(s))]` when `o` holds `s`, else nothing.
pub open spec fn opt_member(key: Seq<char>, o: Option<Seq<char>>) -> Seq<(Seq<char>, JsonV)> {
    match o {
        Some(s) => seq![(key, JsonV::Str(s))],
        None => Seq::empty(),
    }
}

/// The view of a member list.
pub open spec fn members_view(v: Seq<(String, Json)>) -> Seq<(Seq<char>, JsonV)> {
    Seq::new(v.len(), |i: int| (v[i].0@, jv(v[i].1)))
}

/// An object holding exactly the members `v`.
pub fn object(v: Vec<(String, Json)>) -> (j: Json)
    ensures
        jv(j) == JsonV::Object(members_view(v@)),
{
    let j = Json::Object(v);
    proof {
        match jv(j) {
            JsonV::Object(es) => assert(es =~= members_view(v@)),
            _ => {},
        }
    }
    j
}

/// Append member `key: value` to `v`.
pub fn push_member(v: &mut Vec<(String, Json)>, key: &str, value: Json)
    ensures
        members_view(final(v)@) == members_view(old(v)@) + seq![(key@, jv(value))],
{
    let ghost value_view = jv(value);
    v.push((key.to_string(), value));
    assert(members_view(v@) =~= members_view(old(v)@) + seq![(key@, value_view)]);
}

/// Append `key: Str(s)` to `v` when `s` is present.
pub fn push_opt_str(v: &mut Vec<(String, Json)>, key: &str, s: Option<&String>)
    ensures
        members_view(final(v)@) == members_view(old(v)@) + opt_member(key@, opt_str_view(s)),
{
    match s {
        Some(s) => push_member(v, key, Json::Str(s.clone())),
        None => {
            assert(members_view(v@) =~= members_view(v@) + Seq::<(Seq<char>, JsonV)>::empty());
        },
    }
}

/// The views of a list of values.
pub open spec fn items_view(v: Seq<Json>) -> Seq<JsonV> {
    Seq::new(v.len(), |i: int| jv(v[i]))
}

/// An array holding exactly the values `v`.
pub fn array(v: Vec<Json>) -> (j: Json)
    ensures
        jv(j) == JsonV::Array(items_view(v@)),
{
    let j = Json::Array(v);
    proof {
        match jv(j) {
            JsonV::Array(a) => assert(a =~= items_view(v@)),
            _ => {},
        }
    }
    j
}

/// Append `value` to `v`.
pub fn push_item(v: &mut Vec<Json>, value: Json)
    ensures
        items_view(final(v)@) == items_view(old(v)@).push(jv(value)),
{
    let ghost value_view = jv(value);
    v.push(value);
    assert(items_view(v@) =~= items_view(old(v)@).push(value_view));
}

impl Json {
    /// A deep copy of this value.
    pub fn duplicate(&self) -> (r: Json)
        ensures
            jv(r) == jv(*self),
        decreases self,
    {
        match self {
            Json::Null => Json::Null,
            Json::Bool(b) => Json::Bool(*b),
            Json::Int(n) => Json::Int(*n),
            Json::Decimal(t) => Json::Decimal(t.clone()),
            Json::Str(t) => Json::Str(t.clone()),
            Json::Array(v) => {
                let mut out: Vec<Json> = Vec::new();
                let mut i: usize = 0;
                while i < v.len()
                    invariant
                        i <= v.len(),
                        items_view(out@) == items_view(v@).take(i as int),
                        *self == Json::Array(*v),
                    decreases v.len() - i,
                {
                    proof {
                        assert(decreases_to!(*self => self->Array_0));
                        assert(decreases_to!(*v => v@));
                        assert(decreases_to!(v@ => v@[i as int]));
                        assert(decreases_to!(*self => v@[i as int]));
                    }
                    let d = v[i].duplicate();
                    push_item(&mut out, d);
                    assert(items_view(v@).take(i + 1) =~= items_view(v@).take(i as int).push(jv(v@[i as int])));
                    i += 1;
                }
                assert(items_view(v@).take(v.len() as int) =~= items_view(v@));
                let r = array(out);
                proof {
                    match jv(*self) {
                        JsonV::Array(a) => assert(a =~= items_view(v@)),
                        _ => {},
                    }
                }
                r
            },
            Json::Object(es) => {
                let mut out: Vec<(String, Json)> = Vec::new();
                let mut i: usize = 0;
                while i < es.len()
                    invariant
                        i <= es.len(),
                        members_view(out@) == members_view(es@).take(i as int),
                        *self == Json::Object(*es),
                    decreases es.len() - i,
                {
                    proof {
                        assert(decreases_to!(*self => self->Object_0));
                        assert(decreases_to!(*es => es@));
                        assert(decreases_to!(es@ => es@[i as int]));
                        assert(decreases_to!(es@[i as int] => es@[i as int].1));
                        assert(decreases_to!(*self => es@[i as int].1));
                    }
                    let d = es[i].1.duplicate();
                    push_member(&mut out, es[i].0.as_str(), d);
                    assert(members_view(es@).take(i + 1) =~= members_view(es@).take(i as int).push(
                        (es@[i as int].0@, jv(es@[i as int].1)),
                    ));
                    i += 1;
                }
                assert(members_view(es@).take(es.len() as int) =~= members_view(es@));
                let r = object(out);
                proof {
                    match jv(*self) {
                        JsonV::Object(a) => assert(a =~= members_view(es@)),
                        _ => {},
                    }
                }
                r
            },
        }
    }
}

/// A JSON string.
pub fn str_json(t: &str) -> (j: Json)
    ensures
        jv(j) == JsonV::Str(t@),
{
    Json::Str(t.to_string())
}

/// An object of two members.
pub fn pairs2(k1: &str, v1: Json, k2: &str, v2: Json) -> (j: Json)
    ensures
        jv(j) == JsonV::Object(seq![(k1@, jv(v1)), (k2@, jv(v2))]),
{
    let ghost a = jv(v1);
    let ghost b = jv(v2);
    let mut m: Vec<(String, Json)> = Vec::new();
    push_member(&mut m, k1, v1);
    push_member(&mut m, k2, v2);
    assert(members_view(m@) =~= seq![(k1@, a), (k2@, b)]);
    object(m)
}

/// An object of three members.
pub fn pairs3(k1: &str, v1: Json, k2: &str, v2: Json, k3: &str, v3: Json) -> (j: Json)
    ensures
        jv(j) == JsonV::Object(seq![(k1@, jv(v1)), (k2@, jv(v2)), (k3@, jv(v3))]),
{
    let ghost a = jv(v1);
    let ghost b = jv(v2);
    let ghost c = jv(v3);
    let mut m: Vec<(String, Json)> = Vec::new();
    push_member(&mut m, k1, v1);
    push_member(&mut m, k2, v2);
    push_member(&mut m, k3, v3);
    assert(members_view(m@) =~= seq![(k1@, a), (k2@, b), (k3@, c)]);
    object(m)
}

/// An object of four members.
pub fn pairs4(k1: &str, v1: Json, k2: &str, v2: Json, k3: &str, v3: Json, k4: &str, v4: Json) -> (j: Json)
    ensures
        jv(j) == JsonV::Object(seq![(k1@, jv(v1)), (k2@, jv(v2)), (k3@, jv(v3)), (k4@, jv(v4))]),
{
    let ghost a = jv(v1);
    let ghost b = jv(v2);
    let ghost c = jv(v3);
    let ghost d = jv(v4);
    let mut m: Vec<(String, Json)> = Vec::new();
    push_member(&mut m, k1, v1);
    push_member(&mut m, k2, v2);
    push_member(&mut m, k3, v3);
    push_member(&mut m, k4, v4);
    assert(members_view(m@) =~= seq![(k1@, a), (k2@, b), (k3@, c), (k4@, d)]);
    object(m)
}

} // verus!
