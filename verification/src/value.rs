//! The values that the evaluator hands back, as plain data.

use vstd::prelude::*;

verus! {

/// A key of a map value.
#[derive(Debug, PartialEq, Eq)]
pub enum CelKey {
    Int(i64),
    Uint(u64),
    Bool(bool),
    String(String),
}

/// A value of the expression language.
///
/// Doubles are not computed with here: a double is carried as the decimal
/// text that reads back as the same double, `NaN`, `inf` and `-inf` included.
#[derive(Debug, PartialEq, Eq)]
pub enum CelValue {
    Null,
    Bool(bool),
    Int(i64),
    UInt(u64),
    /// A double, by its decimal text.
    Float(String),
    String(String),
    Bytes(Vec<u8>),
    List(Vec<CelValue>),
    /// The entries of a map, in the order in which the evaluator walked them.
    Mapping(Vec<(CelKey, CelValue)>),
    /// Any other kind of value (a function, a duration, a timestamp, an
    /// opaque value, a struct), by its debug text.
    Other(String),
}

/// The model of a [`CelKey`].
pub enum KeyModel {
    Int(i64),
    Uint(u64),
    Bool(bool),
    String(Seq<char>),
}

/// The model of a [`CelValue`].
pub enum CelModel {
    Null,
    Bool(bool),
    Int(i64),
    UInt(u64),
    Float(Seq<char>),
    String(Seq<char>),
    Bytes(Seq<u8>),
    List(Seq<CelModel>),
    Mapping(Seq<(KeyModel, CelModel)>),
    Other(Seq<char>),
}

impl View for CelKey {
    type V = KeyModel;

    open spec fn view(&self) -> KeyModel {
        match *self {
            CelKey::Int(i) => KeyModel::Int(i),
            CelKey::Uint(u) => KeyModel::Uint(u),
            CelKey::Bool(b) => KeyModel::Bool(b),
            CelKey::String(s) => KeyModel::String(s@),
        }
    }
}

/// The model of a value.
pub open spec fn cel_model(v: CelValue) -> CelModel
    decreases v,
{
    match v {
        CelValue::Null => CelModel::Null,
        CelValue::Bool(b) => CelModel::Bool(b),
        CelValue::Int(i) => CelModel::Int(i),
        CelValue::UInt(u) => CelModel::UInt(u),
        CelValue::Float(text) => CelModel::Float(text@),
        CelValue::String(s) => CelModel::String(s@),
        CelValue::Bytes(b) => CelModel::Bytes(b@),
        CelValue::List(items) => CelModel::List(
            Seq::new(
                items@.len(),
                |i: int|
                    if 0 <= i < items@.len() {
                        cel_model(items@[i])
                    } else {
                        CelModel::Null
                    },
            ),
        ),
        CelValue::Mapping(entries) => CelModel::Mapping(
            Seq::new(
                entries@.len(),
                |i: int|
                    if 0 <= i < entries@.len() {
                        (entries@[i].0@, cel_model(entries@[i].1))
                    } else {
                        (KeyModel::Bool(false), CelModel::Null)
                    },
            ),
        ),
        CelValue::Other(text) => CelModel::Other(text@),
    }
}

impl View for CelValue {
    type V = CelModel;

    open spec fn view(&self) -> CelModel {
        cel_model(*self)
    }
}

} // verus!
