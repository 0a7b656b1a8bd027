//! JSON values: reading them, building them, and writing them as text.
use serde_json::Value;
use vstd::prelude::*;

use crate::map::{lemma_values_by, lookup, put, TextMap};
use crate::text::{dec, dec_i64, dec_int, dec_u64, texts};
use crate::value::{
    deep, entries, lemma_array_view, lemma_element_smaller, lemma_field_smaller,
    lemma_object_view, lemma_values_push, values, Json, JsonView, Number, NumberView,
};

verus! {

broadcast use {lemma_array_view, lemma_object_view};

pub open spec fn opt_json(o: Option<&Json>) -> Option<JsonView> {
    match o {
        Some(v) => Some(v@),
        None => None,
    }
}

pub open spec fn opt_json_owned(o: Option<Json>) -> Option<JsonView> {
    match o {
        Some(v) => Some(v@),
        None => None,
    }
}

pub open spec fn opt_str(o: Option<&String>) -> Option<Seq<char>> {
    match o {
        Some(v) => Some(v@),
        None => None,
    }
}

// ---------------------------------------------------------------------------
// Reading
// ---------------------------------------------------------------------------

impl JsonView {
    /// The value of the field `k` of an object.
    pub open spec fn field(self, k: Seq<char>) -> Option<JsonView> {
        match self {
            JsonView::Object(m) => lookup(m, k),
            _ => None,
        }
    }

    /// The element at `i` of an array.
    pub open spec fn item(self, i: int) -> Option<JsonView> {
        match self {
            JsonView::Array(a) => if 0 <= i < a.len() {
                Some(a[i])
            } else {
                None
            },
            _ => None,
        }
    }

    pub open spec fn text(self) -> Option<Seq<char>> {
        match self {
            JsonView::Str(s) => Some(s),
            _ => None,
        }
    }

    pub open spec fn flag(self) -> Option<bool> {
        match self {
            JsonView::Bool(b) => Some(b),
            _ => None,
        }
    }

    pub open spec fn list(self) -> Option<Seq<JsonView>> {
        match self {
            JsonView::Array(a) => Some(a),
            _ => None,
        }
    }

    /// The number, where it is a whole number that a `u64` holds.
    pub open spec fn natural(self) -> Option<u64> {
        match self {
            JsonView::Number(NumberView::PosInt(n)) => Some(n),
            _ => None,
        }
    }

    /// The number, where it is a whole number that an `i64` holds.
    pub open spec fn whole(self) -> Option<i64> {
        match self {
            JsonView::Number(NumberView::PosInt(n)) => if n <= i64::MAX {
                Some(n as i64)
            } else {
                None
            },
            JsonView::Number(NumberView::NegInt(n)) => Some(n),
            _ => None,
        }
    }

    pub open spec fn field_str(self, k: Seq<char>) -> Option<Seq<char>> {
        match self.field(k) {
            Some(v) => v.text(),
            None => None,
        }
    }

    pub open spec fn field_bool(self, k: Seq<char>) -> Option<bool> {
        match self.field(k) {
            Some(v) => v.flag(),
            None => None,
        }
    }

    pub open spec fn field_uint(self, k: Seq<char>) -> Option<u64> {
        match self.field(k) {
            Some(v) => v.natural(),
            None => None,
        }
    }

    pub open spec fn field_int(self, k: Seq<char>) -> Option<i64> {
        match self.field(k) {
            Some(v) => v.whole(),
            None => None,
        }
    }

    pub open spec fn field_array(self, k: Seq<char>) -> Option<Seq<JsonView>> {
        match self.field(k) {
            Some(v) => v.list(),
            None => None,
        }
    }

    /// The object with the field `k` set to `v`. What is no object stays.
    pub open spec fn with(self, k: Seq<char>, v: JsonView) -> JsonView {
        match self {
            JsonView::Object(m) => JsonView::Object(put(m, k, v)),
            other => other,
        }
    }

    /// The object without fields.
    pub open spec fn empty() -> JsonView {
        JsonView::Object(Seq::empty())
    }

    pub open spec fn from_int(n: i64) -> JsonView {
        if n >= 0 {
            JsonView::Number(NumberView::PosInt(n as u64))
        } else {
            JsonView::Number(NumberView::NegInt(n))
        }
    }

    pub open spec fn from_uint(n: u64) -> JsonView {
        JsonView::Number(NumberView::PosInt(n))
    }
}

/// A field just set is read back, and the other fields keep their values.
pub proof fn lemma_field_with(o: JsonView, k: Seq<char>, v: JsonView, other: Seq<char>)
    requires
        o is Object,
    ensures
        o.with(k, v).field(k) == Some(v),
        other != k ==> o.with(k, v).field(other) == o.field(other),
{
    crate::map::lemma_lookup_put(o->Object_0, k, v, other);
}

/// What a field of an object is once a field has been set.
pub broadcast proof fn lemma_with_field(o: JsonView, k: Seq<char>, v: JsonView, x: Seq<char>)
    requires
        o is Object,
    ensures
        #[trigger] o.with(k, v).field(x) == if x == k {
            Some(v)
        } else {
            o.field(x)
        },
{
    lemma_field_with(o, k, v, x);
}

/// An object stays one where a field is set.
pub broadcast proof fn lemma_with_object(o: JsonView, k: Seq<char>, v: JsonView)
    requires
        o is Object,
    ensures
        (#[trigger] o.with(k, v)) is Object,
{
}

impl Number {
    pub fn copy(&self) -> (r: Number)
        ensures
            r@ == self@,
    {
        match self {
            Number::PosInt(n) => Number::PosInt(*n),
            Number::NegInt(n) => Number::NegInt(*n),
            Number::Float(t) => Number::Float(t.clone()),
        }
    }
}

impl Json {
    pub fn text(s: &str) -> (r: Json)
        ensures
            r@ == JsonView::Str(s@),
    {
        Json::Str(s.to_owned())
    }

    pub fn from_int(n: i64) -> (r: Json)
        ensures
            r@ == JsonView::from_int(n),
    {
        if n >= 0 {
            Json::Number(Number::PosInt(n as u64))
        } else {
            Json::Number(Number::NegInt(n))
        }
    }

    pub fn from_uint(n: u64) -> (r: Json)
        ensures
            r@ == JsonView::from_uint(n),
    {
        Json::Number(Number::PosInt(n))
    }

    /// The object without fields.
    pub fn empty() -> (r: Json)
        ensures
            r@ == JsonView::empty(),
    {
        let m: TextMap<Json> = TextMap::new();
        proof {
            assert(entries(m@) =~= Seq::<(Seq<char>, JsonView)>::empty());
        }
        Json::Object(m)
    }

    /// The object with the field `k` set to `v`.
    pub fn with(self, k: &str, v: Json) -> (r: Json)
        ensures
            r@ == self@.with(k@, v@),
    {
        match self {
            Json::Object(o) => {
                let mut m = o;
                proof {
                    lemma_values_by(m@, deep(), k@, v);
                }
                m.insert(k.to_owned(), v);
                Json::Object(m)
            },
            other => other,
        }
    }

    /// The array of the given texts.
    pub fn text_array(items: &Vec<String>) -> (r: Json)
        ensures
            r@ == JsonView::Array(texts(items@).map_values(|t: Seq<char>| JsonView::Str(t))),
    {
        let mut out: Vec<Json> = Vec::new();
        let mut i: usize = 0;
        while i < items.len()
            invariant
                i <= items@.len(),
                out@.len() == i,
                forall|j: int| 0 <= j < i ==> (#[trigger] out@[j])@ == JsonView::Str(items@[j]@),
            decreases items@.len() - i,
        {
            out.push(Json::Str(items[i].clone()));
            i = i + 1;
        }
        assert(values(out@) =~= texts(items@).map_values(|t: Seq<char>| JsonView::Str(t)));
        Json::Array(out)
    }

    /// The value of the field `k` of an object.
    pub fn get<'a>(&'a self, k: &str) -> (r: Option<&'a Json>)
        ensures
            opt_json(r) == self@.field(k@),
    {
        match self {
            Json::Object(o) => {
                proof {
                    lemma_values_by(o@, deep(), k@, Json::Null);
                }
                o.get(k)
            },
            _ => None,
        }
    }

    /// The element at `i` of an array.
    pub fn item<'a>(&'a self, i: usize) -> (r: Option<&'a Json>)
        ensures
            opt_json(r) == self@.item(i as int),
    {
        match self {
            Json::Array(a) => if i < a.len() {
                Some(&a[i])
            } else {
                None
            },
            _ => None,
        }
    }

    pub fn as_str<'a>(&'a self) -> (r: Option<&'a String>)
        ensures
            opt_str(r) == self@.text(),
    {
        match self {
            Json::Str(s) => Some(s),
            _ => None,
        }
    }

    pub fn as_bool(&self) -> (r: Option<bool>)
        ensures
            r == self@.flag(),
    {
        match self {
            Json::Bool(b) => Some(*b),
            _ => None,
        }
    }

    pub fn as_u64(&self) -> (r: Option<u64>)
        ensures
            r == self@.natural(),
    {
        match self {
            Json::Number(Number::PosInt(n)) => Some(*n),
            _ => None,
        }
    }

    pub fn as_i64(&self) -> (r: Option<i64>)
        ensures
            r == self@.whole(),
    {
        match self {
            Json::Number(Number::PosInt(n)) => if *n <= i64::MAX as u64 {
                Some(*n as i64)
            } else {
                None
            },
            Json::Number(Number::NegInt(n)) => Some(*n),
            _ => None,
        }
    }

    pub fn as_array<'a>(&'a self) -> (r: Option<&'a Vec<Json>>)
        ensures
            match r {
                Some(a) => self@ == JsonView::Array(values(a@)),
                None => self@.list() is None,
            },
    {
        match self {
            Json::Array(a) => Some(a),
            _ => None,
        }
    }

    pub fn get_str<'a>(&'a self, k: &str) -> (r: Option<&'a String>)
        ensures
            opt_str(r) == self@.field_str(k@),
    {
        match self.get(k) {
            Some(v) => v.as_str(),
            None => None,
        }
    }

    pub fn get_bool(&self, k: &str) -> (r: Option<bool>)
        ensures
            r == self@.field_bool(k@),
    {
        match self.get(k) {
            Some(v) => v.as_bool(),
            None => None,
        }
    }

    pub fn get_u64(&self, k: &str) -> (r: Option<u64>)
        ensures
            r == self@.field_uint(k@),
    {
        match self.get(k) {
            Some(v) => v.as_u64(),
            None => None,
        }
    }

    pub fn get_i64(&self, k: &str) -> (r: Option<i64>)
        ensures
            r == self@.field_int(k@),
    {
        match self.get(k) {
            Some(v) => v.as_i64(),
            None => None,
        }
    }

    pub fn get_array<'a>(&'a self, k: &str) -> (r: Option<&'a Vec<Json>>)
        ensures
            match r {
                Some(a) => self@.field_array(k@) == Some(values(a@)),
                None => self@.field_array(k@) is None,
            },
    {
        match self.get(k) {
            Some(v) => v.as_array(),
            None => None,
        }
    }

    /// The text of the field `k`, or `other` where there is none.
    pub fn str_or(&self, k: &str, other: &str) -> (r: String)
        ensures
            r@ == match self@.field_str(k@) {
                Some(t) => t,
                None => other@,
            },
    {
        match self.get_str(k) {
            Some(t) => t.clone(),
            None => other.to_owned(),
        }
    }

    /// A copy of the value.
    pub fn copy(&self) -> (r: Json)
        ensures
            r@ == self@,
        decreases self,
    {
        match self {
            Json::Null => Json::Null,
            Json::Bool(b) => Json::Bool(*b),
            Json::Number(n) => Json::Number(n.copy()),
            Json::Str(s) => Json::Str(s.clone()),
            Json::Array(a) => {
                let mut out: Vec<Json> = Vec::new();
                let mut i: usize = 0;
                while i < a.len()
                    invariant
                        i <= a@.len(),
                        *self == Json::Array(*a),
                        values(out@) =~= values(a@).take(i as int),
                    decreases a@.len() - i,
                {
                    proof {
                        lemma_element_smaller(*self, i as int);
                    }
                    let x = a[i].copy();
                    proof {
                        lemma_values_push(out@, x);
                    }
                    out.push(x);
                    i = i + 1;
                }
                assert(values(out@) =~= values(a@));
                Json::Array(out)
            },
            Json::Object(o) => {
                let mut out: Vec<(String, Json)> = Vec::new();
                let mut i: usize = 0;
                while i < o.entries.len()
                    invariant
                        i <= o.entries@.len(),
                        *self == Json::Object(*o),
                        out@.len() == i,
                        forall|j: int|
                            0 <= j < i ==> (#[trigger] out@[j]).0@ == o.entries@[j].0@
                                && out@[j].1@ == o.entries@[j].1@,
                    decreases o.entries@.len() - i,
                {
                    proof {
                        lemma_field_smaller(*self, i as int);
                    }
                    let x = o.entries[i].1.copy();
                    out.push((o.entries[i].0.clone(), x));
                    i = i + 1;
                }
                let m = TextMap { entries: out };
                assert(entries(m@) =~= entries(o@));
                Json::Object(m)
            },
        }
    }
}

/// A copy of a list of values.
pub fn copy_values(a: &Vec<Json>) -> (r: Vec<Json>)
    ensures
        values(r@) == values(a@),
{
    let mut out: Vec<Json> = Vec::new();
    let mut i: usize = 0;
    while i < a.len()
        invariant
            i <= a@.len(),
            values(out@) =~= values(a@).take(i as int),
        decreases a@.len() - i,
    {
        let x = a[i].copy();
        proof {
            lemma_values_push(out@, x);
        }
        out.push(x);
        i = i + 1;
    }
    assert(values(out@) =~= values(a@));
    out
}

/// A copy of a map of values.
pub fn copy_map(o: &TextMap<Json>) -> (r: TextMap<Json>)
    ensures
        entries(r@) == entries(o@),
{
    let mut out: Vec<(String, Json)> = Vec::new();
    let mut i: usize = 0;
    while i < o.entries.len()
        invariant
            i <= o.entries@.len(),
            out@.len() == i,
            forall|j: int|
                0 <= j < i ==> (#[trigger] out@[j]).0@ == o.entries@[j].0@ && out@[j].1@
                    == o.entries@[j].1@,
        decreases o.entries@.len() - i,
    {
        let x = o.entries[i].1.copy();
        out.push((o.entries[i].0.clone(), x));
        i = i + 1;
    }
    let m = TextMap { entries: out };
    assert(entries(m@) =~= entries(o@));
    m
}

// ---------------------------------------------------------------------------
// Writing
// ---------------------------------------------------------------------------

/// The notation of a number.
pub open spec fn number_text(n: NumberView) -> Seq<char> {
    match n {
        NumberView::PosInt(n) => dec(n as nat),
        NumberView::NegInt(n) => dec_int(n as int),
        NumberView::Float(t) => t,
    }
}

/// The compact notation of a value as JSON.
pub uninterp spec fn json_text(v: JsonView) -> Seq<char>;

/// The notation of a value as JSON over several lines.
pub uninterp spec fn json_lines(v: JsonView) -> Seq<char>;

/// The compact notation of a value: that of a single value is known, that of
/// the rest is what the encoder of JSON says.
pub open spec fn render(v: JsonView) -> Seq<char> {
    match v {
        JsonView::Null => "null"@,
        JsonView::Bool(b) => if b {
            "true"@
        } else {
            "false"@
        },
        JsonView::Number(n) => number_text(n),
        other => json_text(other),
    }
}

/// The notation of a value over several lines.
pub open spec fn pretty(v: JsonView) -> Seq<char> {
    match v {
        JsonView::Array(_) => json_lines(v),
        JsonView::Object(_) => json_lines(v),
        other => render(other),
    }
}

/// `serde_json::Value`: a value as the encoder takes it and the parser
/// hands it over.
#[verifier::external_type_specification]
#[verifier::external_body]
pub struct ExValue(Value);

/// The `serde_json::Value` with the contents of a `Json`, variant by variant.
/// Nothing is claimed of it; `encode` and `encode_lines` use it to change the
/// type of what the encoder takes.
#[verifier::external_body]
fn export_value(v: &Json) -> Value {
    match v {
        Json::Null => Value::Null,
        Json::Bool(b) => Value::Bool(*b),
        Json::Number(Number::PosInt(n)) => Value::from(*n),
        Json::Number(Number::NegInt(n)) => Value::from(*n),
        Json::Number(Number::Float(t)) => t.parse().map(Value::Number).unwrap_or_default(),
        Json::Str(s) => Value::String(s.clone()),
        Json::Array(a) => Value::Array(a.iter().map(export_value).collect()),
        Json::Object(o) => Value::Object(
            o.entries.iter().map(|(k, x)| (k.clone(), export_value(x))).collect(),
        ),
    }
}

/// The display of a `serde_json::Value` writes it as JSON on one line. The
/// text depends on the value alone.
#[verifier::external_body]
fn encode(v: &Json) -> (r: String)
    ensures
        r@ == json_text(v@),
{
    export_value(v).to_string()
}

/// `serde_json::to_string_pretty` writes a value as JSON over several lines.
/// The text depends on the value alone.
#[verifier::external_body]
fn encode_lines(v: &Json) -> (r: String)
    ensures
        r@ == json_lines(v@),
{
    serde_json::to_string_pretty(&export_value(v)).unwrap_or_default()
}

impl Number {
    pub fn to_text(&self) -> (r: String)
        ensures
            r@ == number_text(self@),
    {
        match self {
            Number::PosInt(n) => dec_u64(*n),
            Number::NegInt(n) => dec_i64(*n),
            Number::Float(t) => t.clone(),
        }
    }
}

impl Json {
    /// The compact notation of the value.
    pub fn render(&self) -> (r: String)
        ensures
            r@ == render(self@),
    {
        match self {
            Json::Null => "null".to_owned(),
            Json::Bool(b) => if *b {
                "true".to_owned()
            } else {
                "false".to_owned()
            },
            Json::Number(n) => n.to_text(),
            other => encode(other),
        }
    }

    /// The notation of the value over several lines.
    pub fn pretty(&self) -> (r: String)
        ensures
            r@ == pretty(self@),
    {
        match self {
            Json::Array(_) => encode_lines(self),
            Json::Object(_) => encode_lines(self),
            other => other.render(),
        }
    }
}

/// The text that a value stands for inside another text: a string as it is,
/// nothing for null, and the compact notation for the rest.
pub open spec fn plain(v: JsonView) -> Seq<char> {
    match v {
        JsonView::Str(s) => s,
        JsonView::Null => Seq::empty(),
        other => render(other),
    }
}

/// The text that a value stands for inside another text.
pub fn value_to_string(v: &Json) -> (r: String)
    ensures
        r@ == plain(v@),
{
    match v {
        Json::Str(s) => s.clone(),
        Json::Null => {
            let r = String::new();
            assert(r@ =~= Seq::<char>::empty());
            r
        },
        other => other.render(),
    }
}

// ---------------------------------------------------------------------------
// Parsing
// ---------------------------------------------------------------------------

/// The value that a text writes in JSON, or what is wrong with the text.
pub uninterp spec fn json_parsed(s: Seq<char>) -> Result<JsonView, Seq<char>>;

/// What parsing a text returned.
pub open spec fn parsed_view(r: Result<Json, String>) -> Result<JsonView, Seq<char>> {
    match r {
        Ok(v) => Ok(v@),
        Err(e) => Err(e@),
    }
}

/// The `Json` with the contents of a `serde_json::Value`, variant by variant.
/// Nothing is claimed of it; `parse_json_text` uses it to change the type of
/// what the parser returned.
#[verifier::external_body]
fn import_value(v: Value) -> Json {
    match v {
        Value::Null => Json::Null,
        Value::Bool(b) => Json::Bool(b),
        Value::Number(n) => match (n.as_u64(), n.as_i64()) {
            (Some(u), _) => Json::Number(Number::PosInt(u)),
            (_, Some(i)) => Json::Number(Number::NegInt(i)),
            _ => Json::Number(Number::Float(n.to_string())),
        },
        Value::String(s) => Json::Str(s),
        Value::Array(a) => Json::Array(a.into_iter().map(import_value).collect()),
        Value::Object(o) => Json::Object(
            TextMap { entries: o.into_iter().map(|(k, x)| (k, import_value(x))).collect() },
        ),
    }
}

/// `serde_json::from_str` reads a text as a JSON value, or fails with an
/// error whose display says why. Either outcome depends on the text alone.
#[verifier::external_body]
pub(crate) fn parse_json_text(s: &str) -> (r: Result<Json, String>)
    ensures
        match r {
            Ok(v) => json_parsed(s@) == Ok::<JsonView, Seq<char>>(v@),
            Err(e) => json_parsed(s@) == Err::<JsonView, Seq<char>>(e@),
        },
{
    serde_json::from_str::<Value>(s).map(import_value).map_err(|e| e.to_string())
}

} // verus!
