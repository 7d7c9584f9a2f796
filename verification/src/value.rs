//! Attribute values and i2 attribute-type inference.
//!
//! Entity and link `attributes` are an open `name -> value` map whose i2 type
//! follows the value: a flag for a bool, a number for an integer or a float,
//! text for anything else (a bool is a flag, never a number).
use vstd::prelude::*;

use crate::number::{float_eq, float_equal, F64Bits};
use crate::text::{dec_int, i64_string};

verus! {

/// The inferred i2 attribute type of an attribute value.
#[derive(Debug, Clone, Copy, PartialEq, Eq, Structural)]
pub enum InferredType {
    Text,
    Flag,
    Number,
    DateTime,
}

impl InferredType {
    /// The ANB XML type token.
    pub open spec fn token(self) -> Seq<char> {
        match self {
            InferredType::Text => "AttText"@,
            InferredType::Flag => "AttFlag"@,
            InferredType::Number => "AttNumber"@,
            InferredType::DateTime => "AttTime"@,
        }
    }

    /// The ANB XML type token (`AttText`, `AttFlag`, `AttNumber`, `AttTime`).
    pub fn anb_token(self) -> (s: &'static str)
        ensures
            s@ == self.token(),
    {
        match self {
            InferredType::Text => "AttText",
            InferredType::Flag => "AttFlag",
            InferredType::Number => "AttNumber",
            InferredType::DateTime => "AttTime",
        }
    }
}

/// A floating-point attribute value: its bit pattern, and its text in the
/// shortest decimal form that reads back to the same value (an integral value
/// keeps a trailing `.0`).
#[derive(Debug, Clone)]
pub struct FloatAttr {
    pub value: F64Bits,
    pub text: String,
}

/// A scalar attribute value as supplied by the user or parsed from JSON/YAML.
#[derive(Debug, Clone)]
pub enum AttrValue {
    Bool(bool),
    Int(i64),
    Float(FloatAttr),
    Str(String),
}

/// The inferred type of a value.
pub open spec fn inferred(v: AttrValue) -> InferredType {
    match v {
        AttrValue::Bool(_) => InferredType::Flag,
        AttrValue::Int(_) => InferredType::Number,
        AttrValue::Float(_) => InferredType::Number,
        AttrValue::Str(_) => InferredType::Text,
    }
}

/// The text a value renders to as an XML `Value` attribute.
pub open spec fn rendered(v: AttrValue) -> Seq<char> {
    match v {
        AttrValue::Bool(b) => if b {
            "true"@
        } else {
            "false"@
        },
        AttrValue::Int(i) => dec_int(i as int),
        AttrValue::Float(f) => f.text@,
        AttrValue::Str(s) => s@,
    }
}

/// Value equality: same kind and same value; floats compare as IEEE doubles.
pub open spec fn attr_equal(a: AttrValue, b: AttrValue) -> bool {
    match (a, b) {
        (AttrValue::Bool(x), AttrValue::Bool(y)) => x == y,
        (AttrValue::Int(x), AttrValue::Int(y)) => x == y,
        (AttrValue::Float(x), AttrValue::Float(y)) => float_equal(x.value.bits, y.value.bits),
        (AttrValue::Str(x), AttrValue::Str(y)) => x@ == y@,
        _ => false,
    }
}

impl AttrValue {
    /// Infer the i2 attribute type. Strings are always text.
    pub fn infer_type(&self) -> (t: InferredType)
        ensures
            t == inferred(*self),
    {
        match self {
            AttrValue::Bool(_) => InferredType::Flag,
            AttrValue::Int(_) => InferredType::Number,
            AttrValue::Float(_) => InferredType::Number,
            AttrValue::Str(_) => InferredType::Text,
        }
    }

    /// Render the value the way it appears as an XML attribute `Value`.
    pub fn render(&self) -> (s: String)
        ensures
            s@ == rendered(*self),
    {
        match self {
            AttrValue::Bool(b) => {
                if *b {
                    "true".to_owned()
                } else {
                    "false".to_owned()
                }
            },
            AttrValue::Int(i) => i64_string(*i),
            AttrValue::Float(f) => f.text.clone(),
            AttrValue::Str(s) => s.clone(),
        }
    }

    /// Value equality, as [`attr_equal`].
    pub fn equals(&self, other: &AttrValue) -> (r: bool)
        ensures
            r == attr_equal(*self, *other),
    {
        match (self, other) {
            (AttrValue::Bool(x), AttrValue::Bool(y)) => *x == *y,
            (AttrValue::Int(x), AttrValue::Int(y)) => *x == *y,
            (AttrValue::Float(x), AttrValue::Float(y)) => float_eq(x.value, y.value),
            (AttrValue::Str(x), AttrValue::Str(y)) => crate::text::str_eq(x.as_str(), y.as_str()),
            _ => false,
        }
    }
}

} // verus!
