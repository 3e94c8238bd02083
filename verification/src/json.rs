//! JSON values as the relay reads them from the chain's pubsub frames.
//! Numbers are held as their literal text, so that no floating-point value
//! is ever needed here.
use vstd::prelude::*;

use crate::keyed::str_eq;
use crate::text::{decimal_value, parse_decimal};

verus! {

/// A JSON value. An object keeps its fields in order, as the parser handed them over.
pub enum Json {
    Null,
    Bool(bool),
    Number(String),
    Str(String),
    Array(Vec<Json>),
    Object(Vec<(String, Json)>),
}

/// The mathematical form of a JSON value.
pub enum JsonView {
    Null,
    Bool(bool),
    Number(Seq<char>),
    Str(Seq<char>),
    Array(Seq<JsonView>),
    Object(Seq<(Seq<char>, JsonView)>),
}

impl Json {
    /// The value as a `JsonView`.
    pub open spec fn view_json(self) -> JsonView
        decreases self,
    {
        match self {
            Json::Null => JsonView::Null,
            Json::Bool(b) => JsonView::Bool(b),
            Json::Number(t) => JsonView::Number(t@),
            Json::Str(s) => JsonView::Str(s@),
            Json::Array(items) => JsonView::Array(
                Seq::new(
                    items.len() as nat,
                    |i: int|
                        if 0 <= i < items.len() {
                            items[i].view_json()
                        } else {
                            JsonView::Null
                        },
                ),
            ),
            Json::Object(fields) => JsonView::Object(
                Seq::new(
                    fields.len() as nat,
                    |i: int|
                        if 0 <= i < fields.len() {
                            (fields[i].0@, fields[i].1.view_json())
                        } else {
                            (Seq::empty(), JsonView::Null)
                        },
                ),
            ),
        }
    }
}

impl DeepView for Json {
    type V = JsonView;

    open spec fn deep_view(&self) -> JsonView {
        self.view_json()
    }
}

/// The value of the first field named `key` among `fields`.
pub open spec fn first_field(fields: Seq<(Seq<char>, JsonView)>, key: Seq<char>) -> Option<JsonView>
    decreases fields.len(),
{
    if fields.len() == 0 {
        None
    } else if fields[0].0 == key {
        Some(fields[0].1)
    } else {
        first_field(fields.drop_first(), key)
    }
}

/// The field named `key` of an object; nothing for any other value.
pub open spec fn json_get(v: JsonView, key: Seq<char>) -> Option<JsonView> {
    match v {
        JsonView::Object(fields) => first_field(fields, key),
        _ => None,
    }
}

/// The text of a string value.
pub open spec fn json_str(v: JsonView) -> Option<Seq<char>> {
    match v {
        JsonView::Str(s) => Some(s),
        _ => None,
    }
}

/// The value of a number written as an unsigned integer that fits in 64 bits.
pub open spec fn json_u64(v: JsonView) -> Option<u64> {
    match v {
        JsonView::Number(t) => match decimal_value(t, u64::MAX as nat) {
            Some(n) => Some(n as u64),
            None => None,
        },
        _ => None,
    }
}

/// The string items of a list, in order; the other items are passed over.
pub open spec fn strings_of(items: Seq<JsonView>) -> Seq<Seq<char>>
    decreases items.len(),
{
    if items.len() == 0 {
        Seq::empty()
    } else {
        let rest = strings_of(items.drop_last());
        match items.last() {
            JsonView::Str(s) => rest.push(s),
            _ => rest,
        }
    }
}

/// The string items of an array value; nothing for any other value.
pub open spec fn json_strings(v: JsonView) -> Seq<Seq<char>> {
    match v {
        JsonView::Array(items) => strings_of(items),
        _ => Seq::empty(),
    }
}

proof fn lemma_first_field_step(fields: Seq<(Seq<char>, JsonView)>, key: Seq<char>, i: int)
    requires
        0 <= i < fields.len(),
        fields[i].0 != key,
    ensures
        first_field(fields.skip(i), key) == first_field(fields.skip(i + 1), key),
{
    assert(fields.skip(i).drop_first() =~= fields.skip(i + 1));
}

/// The field named `key` of an object value.
pub fn get_field<'a>(v: &'a Json, key: &str) -> (r: Option<&'a Json>)
    ensures
        match r {
            Some(x) => json_get(v.deep_view(), key@) == Some(x.deep_view()),
            None => json_get(v.deep_view(), key@) is None,
        },
{
    match v {
        Json::Object(fields) => {
            let ghost fs = v.deep_view()->Object_0;
            assert(v.deep_view() is Object);
            assert(json_get(v.deep_view(), key@) == first_field(fs, key@));
            assert(forall|k: int| 0 <= k < fields.len() ==> #[trigger] fs[k] == (fields[k].0@, fields[k].1.view_json()));
            let n = fields.len();
            let mut i: usize = 0;
            assert(fs.skip(0) =~= fs);
            while i < n
                invariant
                    n == fields.len(),
                    n == fs.len(),
                    i <= n,
                    forall|k: int| 0 <= k < n ==> #[trigger] fs[k] == (fields[k].0@, fields[k].1.view_json()),
                    first_field(fs, key@) == first_field(fs.skip(i as int), key@),
                    json_get(v.deep_view(), key@) == first_field(fs, key@),
                decreases n - i,
            {
                if str_eq(fields[i].0.as_str(), key) {
                    assert(fs.skip(i as int).len() > 0);
                    assert(fs.skip(i as int)[0] == fs[i as int]);
                    assert(fs[i as int].0 == key@);
                    assert(first_field(fs.skip(i as int), key@) == Some(fs[i as int].1));
                    let found = &fields[i].1;
                    assert(found.deep_view() == fs[i as int].1);
                    return Some(found);
                }
                proof {
                    lemma_first_field_step(fs, key@, i as int);
                }
                i = i + 1;
            }
            assert(fs.skip(n as int).len() == 0);
            None
        },
        _ => None,
    }
}

/// The text of a string value.
pub fn as_str(v: &Json) -> (r: Option<&String>)
    ensures
        match r {
            Some(s) => json_str(v.deep_view()) == Some(s@),
            None => json_str(v.deep_view()) is None,
        },
{
    match v {
        Json::Str(s) => Some(s),
        _ => None,
    }
}

/// The value of a number written as an unsigned 64-bit integer.
pub fn as_u64(v: &Json) -> (r: Option<u64>)
    ensures
        r == json_u64(v.deep_view()),
{
    match v {
        Json::Number(t) => parse_decimal(t.as_str(), u64::MAX),
        _ => None,
    }
}

/// The string items of an array value, in order.
pub fn string_items(v: &Json) -> (r: Vec<String>)
    ensures
        r.deep_view() == json_strings(v.deep_view()),
{
    let mut out: Vec<String> = Vec::new();
    match v {
        Json::Array(items) => {
            let ghost vs = v.deep_view()->Array_0;
            assert(forall|k: int| 0 <= k < items.len() ==> #[trigger] vs[k] == items[k].view_json());
            let n = items.len();
            let mut i: usize = 0;
            assert(vs.take(0) =~= Seq::<JsonView>::empty());
            while i < n
                invariant
                    n == items.len(),
                    n == vs.len(),
                    i <= n,
                    forall|k: int| 0 <= k < n ==> #[trigger] vs[k] == items[k].view_json(),
                    out.deep_view() == strings_of(vs.take(i as int)),
                decreases n - i,
            {
                assert(vs.take(i + 1).drop_last() =~= vs.take(i as int));
                assert(vs.take(i + 1).last() == vs[i as int]);
                match &items[i] {
                    Json::Str(s) => {
                        let ghost before = out.deep_view();
                        out.push(s.clone());
                        assert(out.deep_view() =~= before.push(s@));
                    },
                    _ => {},
                }
                i = i + 1;
            }
            assert(vs.take(n as int) =~= vs);
        },
        _ => {},
    }
    out
}

} // verus!
