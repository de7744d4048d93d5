//! JSON text, read and written by serde_json.

use crate::json::{
    entries_view, items_view, json_view, lemma_entry_decreases, number_integer, number_view, Json, JsonView,
};
use vstd::prelude::*;

verus! {

/// `serde_json::Value`, taken apart and put together one layer at a time.
#[verifier::external_type_specification]
#[verifier::external_body]
pub struct ExValue(serde_json::Value);

/// What a `serde_json::Value` holds.
pub uninterp spec fn value_content(v: serde_json::Value) -> JsonView;

/// What `serde_json::from_str` makes of a text: the value, or the complaint.
pub uninterp spec fn parsed_json(text: Seq<char>) -> Result<JsonView, Seq<char>>;

/// The compact text that serde_json writes for a value.
pub uninterp spec fn json_text(v: JsonView) -> Seq<char>;

/// What `serde_json::from_value` complains of where it asks a value for a string and finds none.
pub uninterp spec fn string_complaint(v: JsonView) -> Seq<char>;

/// One layer of a `serde_json::Value` that is no object.
enum Flat {
    Null,
    Bool(bool),
    Number(serde_json::Number),
    Str(String),
    Array(Vec<serde_json::Value>),
}

/// One layer of a `serde_json::Value`.
enum Layer {
    Flat(Flat),
    Object(Vec<(String, serde_json::Value)>),
}

/// What the items of an array hold, in order.
pub open spec fn value_items(items: Seq<serde_json::Value>) -> Seq<JsonView> {
    Seq::new(items.len(), |i: int| value_content(items[i]))
}

/// The map that a list of entries writes down.
pub open spec fn value_entries(entries: Seq<(String, serde_json::Value)>) -> Map<Seq<char>, JsonView>
    decreases entries.len(),
{
    if entries.len() == 0 {
        Map::empty()
    } else {
        value_entries(entries.drop_last()).insert(entries.last().0@, value_content(entries.last().1))
    }
}

spec fn distinct_names(entries: Seq<(String, serde_json::Value)>) -> bool {
    forall|i: int, j: int| 0 <= i < j < entries.len() ==> entries[i].0@ != entries[j].0@
}

spec fn flat_content(flat: Flat) -> JsonView {
    match flat {
        Flat::Null => JsonView::Null,
        Flat::Bool(b) => JsonView::Bool(b),
        Flat::Number(n) => number_view(n),
        Flat::Str(s) => JsonView::Str(s@),
        Flat::Array(items) => JsonView::Array(value_items(items@)),
    }
}

spec fn layer_content(layer: Layer) -> JsonView {
    match layer {
        Layer::Flat(flat) => flat_content(flat),
        Layer::Object(entries) => JsonView::Object(value_entries(entries@)),
    }
}

/// Takes one layer off a value: the variants of `serde_json::Value`, with the map of an object
/// walked by `serde_json::Map::into_iter`. A map names each of its entries once.
#[verifier::external_body]
fn open_value(v: serde_json::Value) -> (layer: Layer)
    ensures
        layer_content(layer) == value_content(v),
        layer matches Layer::Object(entries) ==> distinct_names(entries@),
{
    match v {
        serde_json::Value::Null => Layer::Flat(Flat::Null),
        serde_json::Value::Bool(b) => Layer::Flat(Flat::Bool(b)),
        serde_json::Value::Number(n) => Layer::Flat(Flat::Number(n)),
        serde_json::Value::String(s) => Layer::Flat(Flat::Str(s)),
        serde_json::Value::Array(items) => Layer::Flat(Flat::Array(items)),
        serde_json::Value::Object(map) => Layer::Object(map.into_iter().collect()),
    }
}

/// Puts a layer on that is no object: the variants of `serde_json::Value`.
#[verifier::external_body]
fn close_value(flat: Flat) -> (v: serde_json::Value)
    ensures
        value_content(v) == flat_content(flat),
{
    match flat {
        Flat::Null => serde_json::Value::Null,
        Flat::Bool(b) => serde_json::Value::Bool(b),
        Flat::Number(n) => serde_json::Value::Number(n),
        Flat::Str(s) => serde_json::Value::String(s),
        Flat::Array(items) => serde_json::Value::Array(items),
    }
}

/// An object with the map of `serde_json::Map::new`, which is empty.
#[verifier::external_body]
fn no_entries() -> (v: serde_json::Value)
    ensures
        value_content(v) == JsonView::Object(Map::empty()),
{
    serde_json::Value::Object(serde_json::Map::new())
}

/// `serde_json::Map::insert` on the map of an object: one more entry, which takes the place of the
/// one of its name if there is one.
#[verifier::external_body]
fn with_entry(object: serde_json::Value, name: String, v: serde_json::Value) -> (more: serde_json::Value)
    requires
        value_content(object) is Object,
    ensures
        value_content(more) == JsonView::Object(value_content(object)->Object_0.insert(name@, value_content(v))),
{
    match object {
        serde_json::Value::Object(mut map) => {
            map.insert(name, v);
            serde_json::Value::Object(map)
        },
        other => other,
    }
}

/// `serde_json::Number::as_u64`: the integer, if it is none below zero.
#[verifier::external_body]
fn number_as_u64(n: &serde_json::Number) -> (r: Option<u64>)
    ensures
        r matches Some(u) ==> number_integer(*n) == Some(u as int),
        r is None ==> (number_integer(*n) matches Some(i) ==> i < 0),
{
    n.as_u64()
}

/// `serde_json::Number::as_i64`: the integer, if it fits. What does not fit is either an integer
/// that fits in 64 bits without a sign, or no integer of 64 bits at all.
#[verifier::external_body]
fn number_as_i64(n: &serde_json::Number) -> (r: Option<i64>)
    ensures
        r matches Some(i) ==> number_integer(*n) == Some(i as int),
        r is None ==> (number_integer(*n) matches Some(i) ==> i64::MAX < i <= u64::MAX),
{
    n.as_i64()
}

/// `<serde_json::Number as From<u64>>::from`, which holds the integer.
#[verifier::external_body]
fn number_from_u64(u: u64) -> (n: serde_json::Number)
    ensures
        number_integer(n) == Some(u as int),
{
    serde_json::Number::from(u)
}

/// `<serde_json::Number as From<i64>>::from`, which holds the integer.
#[verifier::external_body]
fn number_from_i64(i: i64) -> (n: serde_json::Number)
    ensures
        number_integer(n) == Some(i as int),
{
    serde_json::Number::from(i)
}

spec fn parse_content(r: Result<serde_json::Value, String>) -> Result<JsonView, Seq<char>> {
    match r {
        Ok(v) => Ok(value_content(v)),
        Err(e) => Err(e@),
    }
}

/// `serde_json::from_str` into a `serde_json::Value`, and the text of its error.
#[verifier::external_body]
fn parse_value(text: &str) -> (r: Result<serde_json::Value, String>)
    ensures
        parse_content(r) == parsed_json(text@),
{
    serde_json::from_str::<serde_json::Value>(text).map_err(|e| e.to_string())
}

/// `<serde_json::Value as ToString>::to_string`. The text depends on what the value holds alone:
/// serde_json keeps the entries of an object sorted by name.
#[verifier::external_body]
fn print_value(v: &serde_json::Value) -> (text: String)
    ensures
        text@ == json_text(value_content(*v)),
{
    v.to_string()
}

/// `serde_json::from_value` into a `String`: the text of a string, and for any other value an
/// error, of which this is the text.
#[verifier::external_body]
fn string_of_value(v: serde_json::Value) -> (r: Result<String, String>)
    ensures
        r matches Ok(s) ==> value_content(v) == JsonView::Str(s@),
        r matches Err(e) ==> !(value_content(v) is Str) && e@ == string_complaint(value_content(v)),
{
    serde_json::from_value::<String>(v).map_err(|e| e.to_string())
}

proof fn lemma_entry_content(entries: Seq<(String, serde_json::Value)>, i: int)
    requires
        distinct_names(entries),
        0 <= i < entries.len(),
    ensures
        value_entries(entries).dom().finite(),
        value_entries(entries).contains_key(entries[i].0@),
        value_entries(entries)[entries[i].0@] == value_content(entries[i].1),
    decreases entries.len(),
{
    let front = entries.drop_last();
    if i < front.len() {
        assert(front[i] == entries[i]);
        lemma_entry_content(front, i);
    } else if front.len() > 0 {
        lemma_entry_content(front, 0);
    } else {
        assert(value_entries(front) == Map::<Seq<char>, JsonView>::empty());
    }
}

impl Json {
    /// The value that a `serde_json::Value` holds.
    pub fn from_value(v: serde_json::Value) -> (j: Json)
        ensures
            j@ == value_content(v),
        decreases value_content(v),
    {
        match open_value(v) {
            Layer::Flat(Flat::Null) => Json::Null,
            Layer::Flat(Flat::Bool(b)) => Json::Bool(b),
            Layer::Flat(Flat::Number(n)) => match number_as_u64(&n) {
                Some(u) => Json::Unsigned(u),
                None => match number_as_i64(&n) {
                    Some(i) => Json::Signed(i),
                    None => Json::Number(n),
                },
            },
            Layer::Flat(Flat::Str(s)) => Json::Str(s),
            Layer::Flat(Flat::Array(items)) => {
                let ghost all = items@;
                let mut out: Vec<Json> = Vec::new();
                for item in it: items
                    invariant
                        it.seq() == all,
                        out@.len() == it.index(),
                        value_content(v) == JsonView::Array(value_items(all)),
                        forall|i: int| 0 <= i < out@.len() ==> json_view(#[trigger] out@[i]) == value_content(all[i]),
                {
                    proof {
                        let whole = value_content(v);
                        assert(decreases_to!(whole => whole->Array_0));
                        assert(decreases_to!(whole->Array_0 => whole->Array_0[out@.len() as int]));
                    }
                    out.push(Json::from_value(item));
                }
                assert(items_view(out@) =~= value_items(all));
                Json::Array(out)
            },
            Layer::Object(entries) => {
                let ghost all = entries@;
                let mut out: Vec<(String, Json)> = Vec::new();
                for entry in it: entries
                    invariant
                        it.seq() == all,
                        out@.len() == it.index(),
                        distinct_names(all),
                        value_content(v) == JsonView::Object(value_entries(all)),
                        entries_view(out@) == value_entries(all.take(out@.len() as int)),
                {
                    let ghost k = out@.len() as int;
                    proof {
                        lemma_entry_content(all, k);
                        let whole = value_content(v);
                        assert(decreases_to!(whole => whole->Object_0));
                        assert(decreases_to!(whole->Object_0 => whole->Object_0[entry.0@]));
                        assert(all.take(k + 1).drop_last() =~= all.take(k));
                    }
                    let ghost before = out@;
                    out.push((entry.0, Json::from_value(entry.1)));
                    assert(out@.drop_last() =~= before);
                }
                assert(all.take(all.len() as int) =~= all);
                Json::Object(out)
            },
        }
    }

    /// A `serde_json::Value` that holds this value.
    pub fn into_value(self) -> (v: serde_json::Value)
        ensures
            value_content(v) == self@,
        decreases self,
    {
        match self {
            Json::Null => close_value(Flat::Null),
            Json::Bool(b) => close_value(Flat::Bool(b)),
            Json::Unsigned(n) => close_value(Flat::Number(number_from_u64(n))),
            Json::Signed(n) => close_value(Flat::Number(number_from_i64(n))),
            Json::Number(n) => close_value(Flat::Number(n)),
            Json::Str(s) => close_value(Flat::Str(s)),
            Json::Array(items) => {
                let ghost all = items;
                let mut out: Vec<serde_json::Value> = Vec::new();
                for item in it: items
                    invariant
                        it.seq() == all@,
                        out@.len() == it.index(),
                        self == Json::Array(all),
                        forall|i: int| 0 <= i < out@.len() ==> value_content(#[trigger] out@[i]) == json_view(all@[i]),
                {
                    proof {
                        assert(decreases_to!(self => self->Array_0));
                        assert(decreases_to!(self->Array_0 => self->Array_0[out@.len() as int]));
                    }
                    out.push(item.into_value());
                }
                assert(value_items(out@) =~= items_view(all@));
                close_value(Flat::Array(out))
            },
            Json::Object(entries) => {
                let ghost all = entries;
                let mut out = no_entries();
                for entry in it: entries
                    invariant
                        it.seq() == all@,
                        self == Json::Object(all),
                        value_content(out) == JsonView::Object(entries_view(all@.take(it.index() as int))),
                {
                    proof {
                        let k = it.index() as int;
                        assert(decreases_to!(self => self->Object_0));
                        lemma_entry_decreases(self->Object_0, k);
                        assert(all@.take(k + 1).drop_last() =~= all@.take(k));
                    }
                    out = with_entry(out, entry.0, entry.1.into_value());
                }
                assert(all@.take(all@.len() as int) =~= all@);
                out
            },
        }
    }

    /// Reads JSON text. The error is the reader's complaint.
    pub fn parse(text: &str) -> (r: Result<Json, String>)
        ensures
            match r {
                Ok(j) => parsed_json(text@) == Ok::<JsonView, Seq<char>>(j@),
                Err(e) => parsed_json(text@) == Err::<JsonView, Seq<char>>(e@),
            },
    {
        match parse_value(text) {
            Ok(v) => Ok(Json::from_value(v)),
            Err(e) => Err(e),
        }
    }

    /// The compact text of the value.
    pub fn into_text(self) -> (text: String)
        ensures
            text@ == json_text(self@),
    {
        print_value(&self.into_value())
    }

    /// The text of a string, or the complaint that the value is none.
    pub fn into_string(self) -> (r: Result<String, String>)
        ensures
            match r {
                Ok(s) => self@ == JsonView::Str(s@),
                Err(e) => !(self@ is Str) && e@ == string_complaint(self@),
            },
    {
        string_of_value(self.into_value())
    }
}

} // verus!
