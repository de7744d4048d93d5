//! JSON values: what they hold, what they mean, and how they are read and built.

use crate::text::same_text;
use vstd::prelude::*;

verus! {

/// A JSON value. The entries of an object stand in the order in which they were written; a later
/// entry replaces an earlier one of the same name.
#[derive(Debug, PartialEq)]
pub enum Json {
    Null,
    Bool(bool),
    Unsigned(u64),
    Signed(i64),
    /// A number as it was read, where it is no 64-bit integer.
    Number(serde_json::Number),
    Str(String),
    Array(Vec<Json>),
    Object(Vec<(String, Json)>),
}

/// What a JSON value means: an integer is its number, and an object is a map from names.
pub enum JsonView {
    Null,
    Bool(bool),
    Int(int),
    Real(serde_json::Number),
    Str(Seq<char>),
    Array(Seq<JsonView>),
    Object(Map<Seq<char>, JsonView>),
}

/// `serde_json::Number`, which this library carries without looking into it.
#[verifier::external_type_specification]
#[verifier::external_body]
pub struct ExNumber(serde_json::Number);

/// The integer that a `serde_json::Number` holds, if it holds one of 64 bits.
pub uninterp spec fn number_integer(n: serde_json::Number) -> Option<int>;

/// What a number means.
pub open spec fn number_view(n: serde_json::Number) -> JsonView {
    match number_integer(n) {
        Some(i) => JsonView::Int(i),
        None => JsonView::Real(n),
    }
}

/// What a value means.
pub open spec fn json_view(j: Json) -> JsonView
    decreases j,
{
    match j {
        Json::Null => JsonView::Null,
        Json::Bool(b) => JsonView::Bool(b),
        Json::Unsigned(n) => JsonView::Int(n as int),
        Json::Signed(n) => JsonView::Int(n as int),
        Json::Number(n) => number_view(n),
        Json::Str(s) => JsonView::Str(s@),
        Json::Array(items) => JsonView::Array(items_view(items@)),
        Json::Object(entries) => JsonView::Object(entries_view(entries@)),
    }
}

/// What the items of an array mean, in order.
pub open spec fn items_view(items: Seq<Json>) -> Seq<JsonView>
    decreases items,
{
    Seq::new(
        items.len(),
        |i: int|
            if 0 <= i < items.len() {
                json_view(items[i])
            } else {
                JsonView::Null
            },
    )
}

/// The map that a list of entries writes down.
pub open spec fn entries_view(entries: Seq<(String, Json)>) -> Map<Seq<char>, JsonView>
    decreases entries,
{
    if entries.len() == 0 {
        Map::empty()
    } else {
        entries_view(entries.drop_last()).insert(entries.last().0@, json_view(entries.last().1))
    }
}

impl View for Json {
    type V = JsonView;

    open spec fn view(&self) -> JsonView {
        json_view(*self)
    }
}

impl JsonView {
    /// The value that an object holds under a name. Other values hold nothing under any name.
    pub open spec fn field(self, name: Seq<char>) -> Option<JsonView> {
        match self {
            JsonView::Object(entries) => if entries.contains_key(name) {
                Some(entries[name])
            } else {
                None
            },
            _ => None,
        }
    }

    /// The text of a string.
    pub open spec fn text(self) -> Option<Seq<char>> {
        match self {
            JsonView::Str(s) => Some(s),
            _ => None,
        }
    }

    /// The text that an object holds under a name.
    pub open spec fn text_field(self, name: Seq<char>) -> Option<Seq<char>> {
        match self.field(name) {
            Some(v) => v.text(),
            None => None,
        }
    }
}

/// What an optional value means.
pub open spec fn found_view(found: Option<&Json>) -> Option<JsonView> {
    match found {
        Some(j) => Some(j@),
        None => None,
    }
}

/// A string, or null for no text.
pub open spec fn text_or_null(text: Option<Seq<char>>) -> JsonView {
    match text {
        Some(s) => JsonView::Str(s),
        None => JsonView::Null,
    }
}

/// A value, or null for none.
pub open spec fn value_or_null(value: Option<JsonView>) -> JsonView {
    match value {
        Some(v) => v,
        None => JsonView::Null,
    }
}

/// The value of an entry is smaller than the list that holds it.
pub(crate) proof fn lemma_entry_decreases(entries: Vec<(String, Json)>, i: int)
    requires
        0 <= i < entries@.len(),
    ensures
        decreases_to!(entries => entries[i].1),
{
    assert(decreases_to!(entries => entries[i]));
    let entry = entries[i];
    assert(decreases_to!(entry => entry.1));
}

impl Clone for Json {
    fn clone(&self) -> (copy: Json)
        ensures
            copy@ == self@,
        decreases *self,
    {
        match self {
            Json::Null => Json::Null,
            Json::Bool(b) => Json::Bool(*b),
            Json::Unsigned(n) => Json::Unsigned(*n),
            Json::Signed(n) => Json::Signed(*n),
            Json::Number(n) => Json::Number(copy_number(n)),
            Json::Str(s) => Json::Str(s.clone()),
            Json::Array(items) => {
                let mut out: Vec<Json> = Vec::new();
                for i in 0..items.len()
                    invariant
                        self == Json::Array(*items),
                        out@.len() == i,
                        forall|k: int| 0 <= k < i ==> json_view(#[trigger] out@[k]) == json_view(items@[k]),
                {
                    proof {
                        assert(decreases_to!(*self => self->Array_0));
                        assert(decreases_to!(self->Array_0 => self->Array_0[i as int]));
                    }
                    out.push(items[i].clone());
                }
                assert(items_view(out@) =~= items_view(items@));
                Json::Array(out)
            },
            Json::Object(entries) => {
                let mut out: Vec<(String, Json)> = Vec::new();
                for i in 0..entries.len()
                    invariant
                        self == Json::Object(*entries),
                        out@.len() == i,
                        entries_view(out@) == entries_view(entries@.take(i as int)),
                {
                    proof {
                        assert(decreases_to!(*self => self->Object_0));
                        lemma_entry_decreases(self->Object_0, i as int);
                        assert(entries@.take(i + 1).drop_last() =~= entries@.take(i as int));
                    }
                    let ghost before = out@;
                    out.push((entries[i].0.clone(), entries[i].1.clone()));
                    assert(out@.drop_last() =~= before);
                }
                assert(entries@.take(entries@.len() as int) =~= entries@);
                Json::Object(out)
            },
        }
    }
}

/// `<serde_json::Number as Clone>::clone`, which gives the same number again.
#[verifier::external_body]
fn copy_number(n: &serde_json::Number) -> (copy: serde_json::Number)
    ensures
        copy == *n,
{
    n.clone()
}

impl Json {
    /// A string.
    pub fn text(s: &str) -> (j: Json)
        ensures
            j@ == JsonView::Str(s@),
    {
        Json::Str(s.to_owned())
    }

    /// A string, or null for no text.
    pub fn text_or_null(text: &Option<String>) -> (j: Json)
        ensures
            j@ == text_or_null(crate::text::text_view(*text)),
    {
        match text {
            Some(s) => Json::text(s.as_str()),
            None => Json::Null,
        }
    }

    /// A copy of a value, or null for none.
    pub fn value_or_null(value: Option<&Json>) -> (j: Json)
        ensures
            j@ == value_or_null(found_view(value)),
    {
        match value {
            Some(v) => v.clone(),
            None => Json::Null,
        }
    }

    /// The empty object.
    pub fn empty_object() -> (j: Json)
        ensures
            j@ == JsonView::Object(Map::empty()),
    {
        Fields::new().into_json()
    }

    /// The value that an object holds under a name.
    pub fn get(&self, name: &str) -> (found: Option<&Json>)
        ensures
            found_view(found) == self@.field(name@),
    {
        match self {
            Json::Object(entries) => last_entry(entries, name),
            _ => None,
        }
    }

    /// The text of a string.
    pub fn as_str(&self) -> (text: Option<&String>)
        ensures
            match text {
                Some(s) => self@.text() == Some(s@),
                None => self@.text() is None,
            },
    {
        match self {
            Json::Str(s) => Some(s),
            _ => None,
        }
    }

    /// The truth value of a boolean.
    pub fn as_bool(&self) -> (b: Option<bool>)
        ensures
            match b {
                Some(x) => self@ == JsonView::Bool(x),
                None => !(self@ is Bool),
            },
    {
        match self {
            Json::Bool(x) => Some(*x),
            _ => None,
        }
    }

    /// The text that an object holds under a name.
    pub fn get_text(&self, name: &str) -> (text: Option<&String>)
        ensures
            match text {
                Some(s) => self@.text_field(name@) == Some(s@),
                None => self@.text_field(name@) is None,
            },
    {
        match self.get(name) {
            Some(v) => v.as_str(),
            None => None,
        }
    }

    /// Whether the value is an array.
    pub fn is_array(&self) -> (array: bool)
        ensures
            array == (self@ is Array),
    {
        match self {
            Json::Array(_) => true,
            _ => false,
        }
    }
}

fn last_entry<'a>(entries: &'a Vec<(String, Json)>, name: &str) -> (found: Option<&'a Json>)
    ensures
        found_view(found) == JsonView::Object(entries_view(entries@)).field(name@),
{
    let mut n: usize = entries.len();
    proof {
        assert(entries@.take(entries@.len() as int) =~= entries@);
    }
    while n > 0
        invariant
            n <= entries@.len(),
            JsonView::Object(entries_view(entries@)).field(name@) == JsonView::Object(
                entries_view(entries@.take(n as int)),
            ).field(name@),
        decreases n,
    {
        proof {
            assert(entries@.take(n as int).drop_last() =~= entries@.take(n - 1));
        }
        if same_text(entries[n - 1].0.as_str(), name) {
            return Some(&entries[n - 1].1);
        }
        n = n - 1;
    }
    None
}

/// An object that is being built.
pub struct Fields {
    entries: Vec<(String, Json)>,
}

impl View for Fields {
    type V = Map<Seq<char>, JsonView>;

    closed spec fn view(&self) -> Map<Seq<char>, JsonView> {
        entries_view(self.entries@)
    }
}

impl Fields {
    /// No fields yet.
    pub fn new() -> (fields: Fields)
        ensures
            fields@ == Map::<Seq<char>, JsonView>::empty(),
    {
        Fields { entries: Vec::new() }
    }

    /// The same fields and one more, which takes the place of an earlier one of its name.
    pub fn put(self, name: &str, value: Json) -> (fields: Fields)
        ensures
            fields@ == self@.insert(name@, value@),
    {
        let mut entries = self.entries;
        let ghost before = entries@;
        entries.push((name.to_owned(), value));
        assert(entries@.drop_last() =~= before);
        Fields { entries }
    }

    /// The object with these fields.
    pub fn into_json(self) -> (j: Json)
        ensures
            j@ == JsonView::Object(self@),
    {
        Json::Object(self.entries)
    }
}

} // verus!
