//! A materialized JSON document tree.
//!
//! jCard is defined over JSON, so the codec works on an explicit tree of JSON
//! values.  Numbers keep the distinction the codec needs: an integer literal
//! is an [`Json::Int`], a literal with a fractional or exponent part is a
//! [`Json::Float`] carrying the IEEE 754 bit pattern of the closest `f64`
//! (the codec only moves such numbers around, it never computes with them).

use vstd::prelude::*;

verus! {

broadcast use vstd::std_specs::vec::group_vec_axioms, vstd::seq::group_seq_axioms;

/// One JSON value: the exact shapes the codec can meet in a document.
///
/// Object member order is kept, as a document tree that remembers the order
/// in which members were read.
#[derive(Debug, PartialEq)]
pub enum Json {
    /// The JSON literal `null`.
    Null,
    /// A JSON boolean.
    Bool(bool),
    /// A JSON number without fractional or exponent part.
    Int(i64),
    /// A JSON number with a fractional or exponent part, as the bit pattern
    /// of the `f64` it denotes.
    Float(u64),
    /// A JSON string.
    Str(String),
    /// A JSON array.
    Arr(Vec<Json>),
    /// A JSON object, members in document order.
    Obj(Vec<(String, Json)>),
}

/// The mathematical shape of a [`Json`] tree, used by all contracts.
pub enum JsonModel {
    Null,
    Bool(bool),
    Int(i64),
    Float(u64),
    Str(Seq<char>),
    Arr(Seq<JsonModel>),
    Obj(Seq<(Seq<char>, JsonModel)>),
}

impl View for Json {
    type V = JsonModel;

    open spec fn view(&self) -> JsonModel
        decreases self,
    {
        match self {
            Json::Null => JsonModel::Null,
            Json::Bool(b) => JsonModel::Bool(*b),
            Json::Int(i) => JsonModel::Int(*i),
            Json::Float(bits) => JsonModel::Float(*bits),
            Json::Str(s) => JsonModel::Str(s@),
            Json::Arr(elems) => JsonModel::Arr(vec_elems_model(elems)),
            Json::Obj(members) => JsonModel::Obj(vec_members_model(members)),
        }
    }
}

/// The models of a vector of JSON values, elementwise.
pub open spec fn vec_elems_model(v: &Vec<Json>) -> Seq<JsonModel>
    decreases v,
{
    elems_model(v@)
}

/// The models of a sequence of JSON values, elementwise.
pub open spec fn elems_model(s: Seq<Json>) -> Seq<JsonModel>
    decreases s,
{
    Seq::new(
        s.len(),
        |i: int|
            if 0 <= i < s.len() {
                s[i]@
            } else {
                JsonModel::Null
            },
    )
}

/// The models of a vector of JSON object members, elementwise.
pub open spec fn vec_members_model(v: &Vec<(String, Json)>) -> Seq<(Seq<char>, JsonModel)>
    decreases v,
{
    members_model(v@)
}

/// The models of a sequence of JSON object members, elementwise.
pub open spec fn members_model(s: Seq<(String, Json)>) -> Seq<(Seq<char>, JsonModel)>
    decreases s,
{
    Seq::new(
        s.len(),
        |i: int|
            if 0 <= i < s.len() {
                member_model(s[i])
            } else {
                (Seq::empty(), JsonModel::Null)
            },
    )
}

/// The model of one JSON object member.
pub open spec fn member_model(m: (String, Json)) -> (Seq<char>, JsonModel)
    decreases m,
{
    (m.0@, m.1@)
}

impl DeepView for Json {
    type V = JsonModel;

    open spec fn deep_view(&self) -> JsonModel {
        self.view()
    }
}

} // verus!
