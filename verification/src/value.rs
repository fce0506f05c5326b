//! Store-native scalars: what a column of a row holds, and what a statement
//! parameter refers to.

use vstd::prelude::*;

verus! {

/// A store-native scalar as the contracts speak of it.
pub enum Scalar {
    Null,
    Bool(bool),
    Int4(i32),
    Int8(i64),
    Text(Seq<char>),
}

/// An owned scalar, as decoded from a column of a result row.
#[derive(Debug, Clone, PartialEq, Eq)]
pub enum SqlValue {
    Null,
    Bool(bool),
    Int4(i32),
    Int8(i64),
    Text(String),
}

impl View for SqlValue {
    type V = Scalar;

    open spec fn view(&self) -> Scalar {
        match *self {
            SqlValue::Null => Scalar::Null,
            SqlValue::Bool(b) => Scalar::Bool(b),
            SqlValue::Int4(n) => Scalar::Int4(n),
            SqlValue::Int8(n) => Scalar::Int8(n),
            SqlValue::Text(s) => Scalar::Text(s@),
        }
    }
}

/// A scalar borrowed from a record for the time of one statement: the value
/// that is bound to a positional parameter. It refers to the record's field
/// and never holds a copy of it.
#[derive(Debug, Clone, Copy, PartialEq, Eq)]
pub enum ParamRef<'a> {
    Null,
    Bool(&'a bool),
    Int4(&'a i32),
    Int8(&'a i64),
    Text(&'a str),
}

impl<'a> View for ParamRef<'a> {
    type V = Scalar;

    open spec fn view(&self) -> Scalar {
        match *self {
            ParamRef::Null => Scalar::Null,
            ParamRef::Bool(b) => Scalar::Bool(*b),
            ParamRef::Int4(n) => Scalar::Int4(*n),
            ParamRef::Int8(n) => Scalar::Int8(*n),
            ParamRef::Text(s) => Scalar::Text(s@),
        }
    }
}

impl SqlValue {
    /// Borrows the value as a statement parameter.
    pub fn as_param(&self) -> (param: ParamRef<'_>)
        ensures
            param@ == self@,
    {
        match self {
            SqlValue::Null => ParamRef::Null,
            SqlValue::Bool(b) => ParamRef::Bool(b),
            SqlValue::Int4(n) => ParamRef::Int4(n),
            SqlValue::Int8(n) => ParamRef::Int8(n),
            SqlValue::Text(s) => ParamRef::Text(s.as_str()),
        }
    }
}

impl<'a> ParamRef<'a> {
    /// Copies the scalar that the parameter refers to.
    pub fn to_value(&self) -> (value: SqlValue)
        ensures
            value@ == self@,
    {
        match *self {
            ParamRef::Null => SqlValue::Null,
            ParamRef::Bool(b) => SqlValue::Bool(*b),
            ParamRef::Int4(n) => SqlValue::Int4(*n),
            ParamRef::Int8(n) => SqlValue::Int8(*n),
            ParamRef::Text(s) => SqlValue::Text(String::from_str(s)),
        }
    }
}

} // verus!
