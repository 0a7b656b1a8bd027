//! JSON values and what they stand for.
use vstd::prelude::*;

use crate::map::{values_by, TextMap};

verus! {

/// A JSON number. A number with a fraction or an exponent, or one that no
/// 64-bit integer holds, is kept in its canonical notation.
#[derive(Debug, PartialEq, Eq)]
pub enum Number {
    PosInt(u64),
    NegInt(i64),
    Float(String),
}

pub enum NumberView {
    PosInt(u64),
    NegInt(i64),
    Float(Seq<char>),
}

impl Number {
    pub open spec fn view(&self) -> NumberView {
        match self {
            Number::PosInt(n) => NumberView::PosInt(*n),
            Number::NegInt(n) => NumberView::NegInt(*n),
            Number::Float(t) => NumberView::Float(t@),
        }
    }
}

/// A JSON value. The entries of an object stand in the order of their keys.
#[derive(Debug, PartialEq, Eq)]
pub enum Json {
    Null,
    Bool(bool),
    Number(Number),
    Str(String),
    Array(Vec<Json>),
    Object(TextMap<Json>),
}

pub enum JsonView {
    Null,
    Bool(bool),
    Number(NumberView),
    Str(Seq<char>),
    Array(Seq<JsonView>),
    Object(Seq<(Seq<char>, JsonView)>),
}

impl Json {
    pub open spec fn view(&self) -> JsonView
        decreases self,
    {
        match self {
            Json::Null => JsonView::Null,
            Json::Bool(b) => JsonView::Bool(*b),
            Json::Number(n) => JsonView::Number(n@),
            Json::Str(s) => JsonView::Str(s@),
            Json::Array(a) => JsonView::Array(
                Seq::new(
                    a@.len(),
                    |i: int|
                        if 0 <= i < a@.len() {
                            a@[i].view()
                        } else {
                            JsonView::Null
                        },
                ),
            ),
            Json::Object(o) => JsonView::Object(
                Seq::new(
                    o.entries@.len(),
                    |i: int|
                        if 0 <= i < o.entries@.len() {
                            (o.entries@[i].0@, o.entries@[i].1.view())
                        } else {
                            (Seq::<char>::empty(), JsonView::Null)
                        },
                ),
            ),
        }
    }
}

/// The value that a `Json` holds, as a function.
pub open spec fn deep() -> spec_fn(Json) -> JsonView {
    |j: Json| j@
}

/// The values of a list.
pub open spec fn values(a: Seq<Json>) -> Seq<JsonView> {
    a.map_values(deep())
}

/// The entries of an object.
pub open spec fn entries(m: Seq<(Seq<char>, Json)>) -> Seq<(Seq<char>, JsonView)> {
    values_by(m, deep())
}

pub broadcast proof fn lemma_array_view(a: Vec<Json>)
    ensures
        #[trigger] Json::Array(a)@ == JsonView::Array(values(a@)),
{
    assert(Json::Array(a)@->Array_0 =~= values(a@));
}

pub broadcast proof fn lemma_object_view(o: TextMap<Json>)
    ensures
        #[trigger] Json::Object(o)@ == JsonView::Object(entries(o@)),
{
    assert(Json::Object(o)@->Object_0 =~= entries(o@));
}

pub proof fn lemma_values_push(a: Seq<Json>, x: Json)
    ensures
        values(a.push(x)) == values(a).push(x@),
{
    assert(values(a.push(x)) =~= values(a).push(x@));
}

/// An element of an array is smaller than the array.
pub proof fn lemma_element_smaller(j: Json, i: int)
    requires
        j is Array,
        0 <= i < j->Array_0@.len(),
    ensures
        decreases_to!(j => j->Array_0@[i]),
{
    let v = j->Array_0;
    assert(decreases_to!(v => v[i]));
}

/// A field of an object is smaller than the object.
pub proof fn lemma_field_smaller(j: Json, i: int)
    requires
        j is Object,
        0 <= i < j->Object_0.entries@.len(),
    ensures
        decreases_to!(j => j->Object_0.entries@[i].1),
{
    let v = j->Object_0.entries;
    assert(decreases_to!(v => v[i]));
}

} // verus!
