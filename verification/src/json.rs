//! A JSON document model: values as the evaluation logic reads them.

use vstd::prelude::*;

verus! {

/// A JSON value. Numbers keep their decimal text; objects keep their members in order.
#[derive(Debug, PartialEq)]
pub enum Json {
    Null,
    Bool(bool),
    Number(String),
    Str(String),
    Array(Vec<Json>),
    Object(Vec<(String, Json)>),
}

/// The mathematical view of a JSON value.
pub enum JsonV {
    Null,
    Bool(bool),
    Number(Seq<char>),
    Str(Seq<char>),
    Array(Seq<JsonV>),
    Object(Seq<(Seq<char>, JsonV)>),
}

/// The value of the first member named `key`.
pub open spec fn lookup(members: Seq<(Seq<char>, JsonV)>, key: Seq<char>) -> Option<JsonV>
    decreases members.len(),
{
    if members.len() == 0 {
        None
    } else if members[0].0 == key {
        Some(members[0].1)
    } else {
        lookup(members.drop_first(), key)
    }
}

impl JsonV {
    /// The member `key` of an object; `None` for a missing key or a non-object.
    pub open spec fn get(self, key: Seq<char>) -> Option<JsonV> {
        match self {
            JsonV::Object(m) => lookup(m, key),
            _ => None,
        }
    }

    /// The text of a string value.
    pub open spec fn as_str(self) -> Option<Seq<char>> {
        match self {
            JsonV::Str(s) => Some(s),
            _ => None,
        }
    }

    /// The items of an array value.
    pub open spec fn as_array(self) -> Option<Seq<JsonV>> {
        match self {
            JsonV::Array(a) => Some(a),
            _ => None,
        }
    }
}

/// The view of a member list.
pub open spec fn members_v(members: Seq<(String, Json)>) -> Seq<(Seq<char>, JsonV)>
    decreases members,
{
    Seq::new(members.len(), |i: int| if 0 <= i < members.len() { (members[i].0@, members[i].1.v()) } else { (Seq::empty(), JsonV::Null) })
}

/// The view of an item list.
pub open spec fn items_v(items: Seq<Json>) -> Seq<JsonV>
    decreases items,
{
    Seq::new(items.len(), |i: int| if 0 <= i < items.len() { items[i].v() } else { JsonV::Null })
}

impl Json {
    /// The view of this value.
    pub open spec fn v(&self) -> JsonV
        decreases self,
    {
        match self {
            Json::Null => JsonV::Null,
            Json::Bool(b) => JsonV::Bool(*b),
            Json::Number(s) => JsonV::Number(s@),
            Json::Str(s) => JsonV::Str(s@),
            Json::Array(items) => JsonV::Array(
                Seq::new(items@.len(), |i: int| if 0 <= i < items@.len() { items@[i].v() } else { JsonV::Null }),
            ),
            Json::Object(members) => JsonV::Object(
                Seq::new(members@.len(), |i: int| if 0 <= i < members@.len() { (members@[i].0@, members@[i].1.v()) } else { (Seq::empty(), JsonV::Null) }),
            ),
        }
    }

    /// The member `key` of an object value.
    pub fn get(&self, key: &str) -> (res: Option<&Json>)
        ensures
            match res {
                Some(j) => self.v().get(key@) == Some(j.v()),
                None => self.v().get(key@) is None,
            },
    {
        match self {
            Json::Object(members) => {
                let ghost mv = self.v()->Object_0;
                let k = crate::error::owned(key);
                let mut i: usize = 0;
                assert(mv.skip(0) =~= mv);
                while i < members.len()
                    invariant
                        i <= members@.len(),
                        mv.len() == members@.len(),
                        forall|j: int| 0 <= j < members@.len() ==> #[trigger] mv[j] == (members@[j].0@, members@[j].1.v()),
                        lookup(mv, key@) == lookup(mv.skip(i as int), key@),
                        self.v().get(key@) == lookup(mv, key@),
                        k@ == key@,
                    decreases members@.len() - i,
                {
                    assert(mv.skip(i as int)[0] == mv[i as int]);
                    assert(mv.skip(i as int).len() > 0);
                    if members[i].0 == k {
                        assert(mv.skip(i as int)[0].0 == key@);
                        return Some(&members[i].1);
                    }
                    assert(mv.skip(i as int).drop_first() =~= mv.skip(i + 1));
                    i = i + 1;
                }
                assert(mv.skip(i as int).len() == 0);
                None
            },
            _ => None,
        }
    }

    /// The text of a string value.
    pub fn as_str(&self) -> (res: Option<&String>)
        ensures
            match res {
                Some(s) => self.v().as_str() == Some(s@),
                None => self.v().as_str() is None,
            },
    {
        match self {
            Json::Str(s) => Some(s),
            _ => None,
        }
    }

    /// The items of an array value.
    pub fn as_array(&self) -> (res: Option<&Vec<Json>>)
        ensures
            match res {
                Some(a) => self.v().as_array() == Some(items_v(a@)),
                None => self.v().as_array() is None,
            },
    {
        match self {
            Json::Array(items) => {
                assert(self.v().as_array()->Some_0 =~= items_v(items@));
                Some(items)
            },
            _ => None,
        }
    }

    /// A deep copy.
    #[verifier::loop_isolation(false)]
    pub fn copy(&self) -> (res: Json)
        ensures
            res.v() == self.v(),
        decreases self,
    {
        match self {
            Json::Null => Json::Null,
            Json::Bool(b) => Json::Bool(*b),
            Json::Number(s) => Json::Number(s.clone()),
            Json::Str(s) => Json::Str(s.clone()),
            Json::Array(items) => {
                let mut out: Vec<Json> = Vec::new();
                let mut i: usize = 0;
                while i < items.len()
                    invariant
                        i <= items@.len(),
                        out@.len() == i,
                        forall|j: int| 0 <= j < i ==> (#[trigger] out@[j]).v() == items@[j].v(),
                    decreases items@.len() - i,
                {
                    proof {
                        assert(decreases_to!(items => items@));
                        assert(decreases_to!(items@ => items@[i as int]));
                    }
                    let c = items[i].copy();
                    out.push(c);
                    i = i + 1;
                }
                let res = Json::Array(out);
                assert(res.v()->Array_0 =~= self.v()->Array_0);
                res
            },
            Json::Object(members) => {
                let mut out: Vec<(String, Json)> = Vec::new();
                let mut i: usize = 0;
                while i < members.len()
                    invariant
                        i <= members@.len(),
                        out@.len() == i,
                        forall|j: int| 0 <= j < i ==> (#[trigger] out@[j]).0@ == members@[j].0@ && out@[j].1.v() == members@[j].1.v(),
                    decreases members@.len() - i,
                {
                    proof {
                        assert(decreases_to!(members => members@));
                        assert(decreases_to!(members@ => members@[i as int]));
                        assert(decreases_to!(members@[i as int] => members@[i as int].1));
                    }
                    let c = members[i].1.copy();
                    out.push((members[i].0.clone(), c));
                    i = i + 1;
                }
                let res = Json::Object(out);
                assert(res.v()->Object_0 =~= self.v()->Object_0);
                res
            },
        }
    }
}

/// The value type of `serde_json`.
#[verifier::external_type_specification]
#[verifier::external_body]
pub struct ExJsonValue(serde_json::Value);

/// The document that `serde_json::from_str::<serde_json::Value>` reads from a
/// text, or `None` when the text is not exactly one JSON value (surrounding
/// whitespace allowed).
pub uninterp spec fn json_parse(text: Seq<char>) -> Option<JsonV>;

/// Reads a JSON document with `serde_json::from_str`; the result is the named
/// reading [`json_parse`] of the text.
#[verifier::external_body]
pub fn parse_json_text(text: &str) -> (res: Option<Json>)
    ensures
        match res {
            Some(j) => json_parse(text@) == Some(j.v()),
            None => json_parse(text@) is None,
        },
{
    serde_json::from_str::<serde_json::Value>(text).ok().map(|v| json_of_value(&v))
}

/// Copies a `serde_json` value variant by variant; a number keeps the text
/// that `serde_json` prints for it.
#[verifier::external_body]
fn json_of_value(v: &serde_json::Value) -> Json {
    match v {
        serde_json::Value::Null => Json::Null,
        serde_json::Value::Bool(b) => Json::Bool(*b),
        serde_json::Value::Number(n) => Json::Number(n.to_string()),
        serde_json::Value::String(s) => Json::Str(s.clone()),
        serde_json::Value::Array(a) => Json::Array(a.iter().map(json_of_value).collect()),
        serde_json::Value::Object(m) => Json::Object(m.iter().map(|(k, x)| (k.clone(), json_of_value(x))).collect()),
    }
}

} // verus!
