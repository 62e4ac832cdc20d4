//! JSON documents as the library reads and writes them: a tree of plain
//! values. Reading text into a tree and writing a tree out as text, compact
//! or indented, is serde_json's work; looking into a tree and building one
//! is done here.

use vstd::prelude::*;
use crate::text::{parse_nat, parse_u64, chars_of};

verus! {

broadcast use vstd::std_specs::vec::group_vec_axioms;

#[verifier::external_type_specification]
#[verifier::external_body]
pub struct ExJsonValue(serde_json::Value);

/// A JSON value. A number is kept as the text serde_json writes for it.
#[derive(Debug)]
pub enum Json {
    Null,
    Bool(bool),
    Number(String),
    Text(String),
    Array(Vec<Json>),
    Object(Vec<(String, Json)>),
}

/// `Json` as a value.
pub enum JsonView {
    Null,
    Bool(bool),
    Number(Seq<char>),
    Text(Seq<char>),
    Array(Seq<JsonView>),
    Object(Seq<(Seq<char>, JsonView)>),
}

pub open spec fn json_view(j: Json) -> JsonView
    decreases j,
{
    match j {
        Json::Null => JsonView::Null,
        Json::Bool(b) => JsonView::Bool(b),
        Json::Number(t) => JsonView::Number(t@),
        Json::Text(s) => JsonView::Text(s@),
        Json::Array(v) => JsonView::Array(views(v@)),
        Json::Object(m) => JsonView::Object(member_views(m@)),
    }
}

pub open spec fn views(s: Seq<Json>) -> Seq<JsonView>
    decreases s,
{
    if s.len() == 0 {
        seq![]
    } else {
        views(s.drop_last()).push(json_view(s.last()))
    }
}

pub open spec fn member_views(s: Seq<(String, Json)>) -> Seq<(Seq<char>, JsonView)>
    decreases s,
{
    if s.len() == 0 {
        seq![]
    } else {
        member_views(s.drop_last()).push((s.last().0@, json_view(s.last().1)))
    }
}

pub proof fn lemma_views(s: Seq<Json>)
    ensures
        views(s).len() == s.len(),
        forall|i: int| 0 <= i < s.len() ==> #[trigger] views(s)[i] == json_view(s[i]),
    decreases s.len(),
{
    if s.len() > 0 {
        lemma_views(s.drop_last());
    }
}

pub proof fn lemma_member_views(s: Seq<(String, Json)>)
    ensures
        member_views(s).len() == s.len(),
        forall|i: int| 0 <= i < s.len() ==> #[trigger] member_views(s)[i] == (s[i].0@, json_view(s[i].1)),
    decreases s.len(),
{
    if s.len() > 0 {
        lemma_member_views(s.drop_last());
    }
}

pub open spec fn json_result(r: Result<Json, String>) -> Result<JsonView, Seq<char>> {
    match r {
        Ok(j) => Ok(json_view(j)),
        Err(e) => Err(e@),
    }
}

/// What serde_json reads a byte sequence as: a value, or its error message.
/// Objects list their members once each, in serde_json's key order.
pub uninterp spec fn json_of(bytes: Seq<u8>) -> Result<JsonView, Seq<char>>;

/// `serde_json::from_slice` into its `Value`, converted one variant at a
/// time (`json_tree`). The claim is only that the result is a function of
/// the bytes, named `json_of`.
#[verifier::external_body]
fn parse_json(bytes: &[u8]) -> (r: Result<Json, String>)
    ensures
        json_result(r) == json_of(bytes@),
{
    serde_json::from_slice::<serde_json::Value>(bytes).map(|v| json_tree(&v)).map_err(|e| e.to_string())
}

/// The conversion half of `parse_json`: serde_json's `Value` as a `Json`,
/// one arm per variant, numbers as the text serde_json writes for them.
#[verifier::external_body]
fn json_tree(v: &serde_json::Value) -> Json {
    match v {
        serde_json::Value::Null => Json::Null,
        serde_json::Value::Bool(b) => Json::Bool(*b),
        serde_json::Value::Number(n) => Json::Number(n.to_string()),
        serde_json::Value::String(s) => Json::Text(s.clone()),
        serde_json::Value::Array(a) => Json::Array(a.iter().map(json_tree).collect()),
        serde_json::Value::Object(o) => Json::Object(o.iter().map(|(k, x)| (k.clone(), json_tree(x))).collect()),
    }
}

/// Read JSON text.
pub fn read_json(text: &str) -> (r: Result<Json, String>)
    ensures
        json_result(r) == json_of(vstd::utf8::encode_utf8(text@)),
{
    let b = text.as_bytes();
    parse_json(b)
}

/// Read JSON bytes.
pub fn read_json_bytes(bytes: &[u8]) -> (r: Result<Json, String>)
    ensures
        json_result(r) == json_of(bytes@),
{
    parse_json(bytes)
}

// ---------------------------------------------------------------------------
// Looking inside a value
// ---------------------------------------------------------------------------

/// The first member of an object with this key; `None` for anything that
/// is not an object.
pub open spec fn member(v: JsonView, key: Seq<char>) -> Option<JsonView> {
    match v {
        JsonView::Object(ms) => member_in(ms, key),
        _ => None,
    }
}

pub open spec fn member_in(ms: Seq<(Seq<char>, JsonView)>, key: Seq<char>) -> Option<JsonView>
    decreases ms.len(),
{
    if ms.len() == 0 {
        None
    } else if ms[0].0 == key {
        Some(ms[0].1)
    } else {
        member_in(ms.drop_first(), key)
    }
}

/// A member that is a string.
pub open spec fn text_member(v: JsonView, key: Seq<char>) -> Option<Seq<char>> {
    match member(v, key) {
        Some(JsonView::Text(s)) => Some(s),
        _ => None,
    }
}

/// A number that is a whole number from 0 to `u64::MAX`.
pub open spec fn as_u64(v: JsonView) -> Option<u64> {
    match v {
        JsonView::Number(t) => match parse_nat(t) {
            Some(n) => if n <= u64::MAX { Some(n as u64) } else { None },
            None => None,
        },
        _ => None,
    }
}

pub proof fn lemma_member_in(ms: Seq<(Seq<char>, JsonView)>, key: Seq<char>, i: int)
    requires
        0 <= i < ms.len(),
        ms[i].0 == key,
        forall|j: int| 0 <= j < i ==> ms[j].0 != key,
    ensures
        member_in(ms, key) == Some(ms[i].1),
    decreases i,
{
    if i > 0 {
        assert forall|j: int| 0 <= j < i - 1 implies ms.drop_first()[j].0 != key by {
            assert(ms.drop_first()[j] == ms[j + 1]);
        }
        lemma_member_in(ms.drop_first(), key, i - 1);
    }
}

proof fn lemma_member_absent(ms: Seq<(Seq<char>, JsonView)>, key: Seq<char>)
    requires
        forall|j: int| 0 <= j < ms.len() ==> ms[j].0 != key,
    ensures
        member_in(ms, key) is None,
    decreases ms.len(),
{
    if ms.len() > 0 {
        assert forall|j: int| 0 <= j < ms.len() - 1 implies ms.drop_first()[j].0 != key by {
            assert(ms.drop_first()[j] == ms[j + 1]);
        }
        lemma_member_absent(ms.drop_first(), key);
    }
}

/// The member with this key.
pub fn get<'a>(j: &'a Json, key: &str) -> (r: Option<&'a Json>)
    ensures
        match r {
            Some(x) => member(json_view(*j), key@) == Some(json_view(*x)),
            None => member(json_view(*j), key@) is None,
        },
{
    match j {
        Json::Object(ms) => {
            let ghost vs = member_views(ms@);
            proof {
                lemma_member_views(ms@);
            }
            let mut i: usize = 0;
            while i < ms.len()
                invariant
                    i <= ms.len(),
                    vs == member_views(ms@),
                    *j == Json::Object(*ms),
                    vs.len() == ms@.len(),
                    forall|k: int| 0 <= k < ms@.len() ==> #[trigger] vs[k] == (ms@[k].0@, json_view(ms@[k].1)),
                    forall|k: int| 0 <= k < i ==> (#[trigger] vs[k]).0 != key@,
                decreases ms.len() - i,
            {
                if crate::text::str_eq(ms[i].0.as_str(), key) {
                    proof {
                        assert(vs[i as int] == (ms@[i as int].0@, json_view(ms@[i as int].1)));
                        lemma_member_in(vs, key@, i as int);
                        assert(*j == Json::Object(*ms));
                        assert(json_view(*j) == JsonView::Object(vs));
                    }
                    return Some(&ms[i].1);
                }
                i = i + 1;
            }
            proof {
                lemma_member_absent(vs, key@);
            }
            None
        },
        _ => None,
    }
}

/// The member with this key, when it is a string.
pub fn get_text<'a>(j: &'a Json, key: &str) -> (r: Option<&'a String>)
    ensures
        match r {
            Some(s) => text_member(json_view(*j), key@) == Some(s@),
            None => text_member(json_view(*j), key@) is None,
        },
{
    match get(j, key) {
        Some(Json::Text(s)) => Some(s),
        _ => None,
    }
}

/// A number as a `u64`, when it is one.
pub fn number_u64(j: &Json) -> (r: Option<u64>)
    ensures
        r == as_u64(json_view(*j)),
{
    match j {
        Json::Number(t) => {
            let v = chars_of(t.as_str());
            parse_u64(v.as_slice())
        },
        _ => None,
    }
}

/// A copy of a value.
pub fn copy(j: &Json) -> (r: Json)
    ensures
        json_view(r) == json_view(*j),
    decreases j,
{
    match j {
        Json::Null => Json::Null,
        Json::Bool(b) => Json::Bool(*b),
        Json::Number(t) => Json::Number(t.clone()),
        Json::Text(s) => Json::Text(s.clone()),
        Json::Array(v) => {
            let mut out: Vec<Json> = Vec::new();
            let mut i: usize = 0;
            while i < v.len()
                invariant
                    i <= v.len(),
                    *j == Json::Array(*v),
                    out@.len() == i,
                    forall|k: int| 0 <= k < i ==> json_view(#[trigger] out@[k]) == json_view(v@[k]),
                decreases v.len() - i,
            {
                proof {
                    assert(*j == Json::Array(*v));
                    assert(decreases_to!(*j => (*j)->Array_0));
                    assert(decreases_to!(*v => v@));
                    assert(decreases_to!(v@ => v@[i as int]));
                }
                let c = copy(&v[i]);
                out.push(c);
                i = i + 1;
            }
            proof {
                lemma_views(out@);
                lemma_views(v@);
                assert(views(out@) =~= views(v@));
            }
            Json::Array(out)
        },
        Json::Object(m) => {
            let mut out: Vec<(String, Json)> = Vec::new();
            let mut i: usize = 0;
            while i < m.len()
                invariant
                    i <= m.len(),
                    *j == Json::Object(*m),
                    out@.len() == i,
                    forall|k: int| 0 <= k < i ==> (#[trigger] out@[k]).0@ == m@[k].0@ && json_view(out@[k].1) == json_view(m@[k].1),
                decreases m.len() - i,
            {
                proof {
                    assert(*j == Json::Object(*m));
                    assert(decreases_to!(*j => (*j)->Object_0));
                    assert(decreases_to!(*m => m@));
                    assert(decreases_to!(m@ => m@[i as int]));
                    assert(decreases_to!(m@[i as int] => m@[i as int].1));
                }
                let c = copy(&m[i].1);
                out.push((m[i].0.clone(), c));
                i = i + 1;
            }
            proof {
                lemma_member_views(out@);
                lemma_member_views(m@);
                assert(member_views(out@) =~= member_views(m@));
            }
            Json::Object(out)
        },
    }
}

// ---------------------------------------------------------------------------
// Writing a value out
// ---------------------------------------------------------------------------

/// The text serde_json's `to_string` writes for a value: compact, with an
/// object's members in serde_json's key order.
pub uninterp spec fn json_text(v: JsonView) -> Seq<char>;

/// The text serde_json's `to_string_pretty` writes for a value: indented by
/// two spaces a level.
pub uninterp spec fn json_pretty(v: JsonView) -> Seq<char>;

/// The other direction of `json_tree`: a `Json` as serde_json's `Value`,
/// one arm per variant; a number's text is read back as serde_json's
/// `Number`.
#[verifier::external_body]
fn value_tree(j: &Json) -> serde_json::Value {
    match j {
        Json::Null => serde_json::Value::Null,
        Json::Bool(b) => serde_json::Value::Bool(*b),
        Json::Number(t) => t.parse::<serde_json::Number>().map(serde_json::Value::Number).unwrap_or(serde_json::Value::Null),
        Json::Text(s) => serde_json::Value::String(s.clone()),
        Json::Array(a) => serde_json::Value::Array(a.iter().map(value_tree).collect()),
        Json::Object(o) => serde_json::Value::Object(o.iter().map(|(k, x)| (k.clone(), value_tree(x))).collect()),
    }
}

/// `serde_json::to_string` of the value (through `value_tree`), named
/// `json_text`; writing a `Value` cannot fail.
#[verifier::external_body]
fn write_compact(j: &Json) -> (s: String)
    ensures
        s@ == json_text(json_view(*j)),
{
    serde_json::to_string(&value_tree(j)).unwrap_or_default()
}

/// `serde_json::to_string_pretty` of the value (through `value_tree`),
/// named `json_pretty`; writing a `Value` cannot fail.
#[verifier::external_body]
fn write_pretty(j: &Json) -> (s: String)
    ensures
        s@ == json_pretty(json_view(*j)),
{
    serde_json::to_string_pretty(&value_tree(j)).unwrap_or_default()
}

/// A value as compact JSON text.
pub fn to_text(j: &Json) -> (s: String)
    ensures
        s@ == json_text(json_view(*j)),
{
    write_compact(j)
}

/// A value as indented JSON text.
pub fn to_pretty_text(j: &Json) -> (s: String)
    ensures
        s@ == json_pretty(json_view(*j)),
{
    write_pretty(j)
}

// ---------------------------------------------------------------------------
// Building values
// ---------------------------------------------------------------------------

pub fn text(s: &str) -> (r: Json)
    ensures
        json_view(r) == JsonView::Text(s@),
{
    Json::Text(crate::text::owned(s))
}

pub fn array1(a: Json) -> (r: Json)
    ensures
        json_view(r) == JsonView::Array(seq![json_view(a)]),
{
    let ghost ga = json_view(a);
    let v = vec![a];
    proof {
        lemma_views(v@);
        assert(views(v@) =~= seq![ga]);
    }
    Json::Array(v)
}

pub fn object0() -> (r: Json)
    ensures
        json_view(r) == JsonView::Object(seq![]),
{
    let v: Vec<(String, Json)> = Vec::new();
    proof {
        assert(member_views(v@) =~= seq![]);
    }
    Json::Object(v)
}

pub fn object1(k1: &str, a: Json) -> (r: Json)
    ensures
        json_view(r) == JsonView::Object(seq![(k1@, json_view(a))]),
{
    let ghost ga = json_view(a);
    let v = vec![(crate::text::owned(k1), a)];
    proof {
        lemma_member_views(v@);
        assert(member_views(v@) =~= seq![(k1@, ga)]);
    }
    Json::Object(v)
}

pub fn object2(k1: &str, a: Json, k2: &str, b: Json) -> (r: Json)
    ensures
        json_view(r) == JsonView::Object(seq![(k1@, json_view(a)), (k2@, json_view(b))]),
{
    let ghost ga = json_view(a);
    let ghost gb = json_view(b);
    let v = vec![(crate::text::owned(k1), a), (crate::text::owned(k2), b)];
    proof {
        lemma_member_views(v@);
        assert(member_views(v@) =~= seq![(k1@, ga), (k2@, gb)]);
    }
    Json::Object(v)
}

pub fn object3(k1: &str, a: Json, k2: &str, b: Json, k3: &str, c: Json) -> (r: Json)
    ensures
        json_view(r) == JsonView::Object(seq![(k1@, json_view(a)), (k2@, json_view(b)), (k3@, json_view(c))]),
{
    let ghost ga = json_view(a);
    let ghost gb = json_view(b);
    let ghost gc = json_view(c);
    let v = vec![(crate::text::owned(k1), a), (crate::text::owned(k2), b), (crate::text::owned(k3), c)];
    proof {
        lemma_member_views(v@);
        assert(member_views(v@) =~= seq![(k1@, ga), (k2@, gb), (k3@, gc)]);
    }
    Json::Object(v)
}

pub fn object4(k1: &str, a: Json, k2: &str, b: Json, k3: &str, c: Json, k4: &str, d: Json) -> (r: Json)
    ensures
        json_view(r) == JsonView::Object(
            seq![(k1@, json_view(a)), (k2@, json_view(b)), (k3@, json_view(c)), (k4@, json_view(d))],
        ),
{
    let ghost ga = json_view(a);
    let ghost gb = json_view(b);
    let ghost gc = json_view(c);
    let ghost gd = json_view(d);
    let v = vec![
        (crate::text::owned(k1), a),
        (crate::text::owned(k2), b),
        (crate::text::owned(k3), c),
        (crate::text::owned(k4), d),
    ];
    proof {
        lemma_member_views(v@);
        assert(member_views(v@) =~= seq![(k1@, ga), (k2@, gb), (k3@, gc), (k4@, gd)]);
    }
    Json::Object(v)
}

} // verus!
