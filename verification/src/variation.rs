//! Flag variations: the values that a flag serves.
use vstd::prelude::*;

verus! {

/// Declares `serde_json::Value`, which a variation carries and never looks into.
#[verifier::external_type_specification]
#[verifier::external_body]
pub struct ExJsonValue(serde_json::Value);

/// The specification of `<serde_json::Value as Clone>::clone`: the copy is the
/// same JSON value. Believed, not proved.
pub assume_specification[ <serde_json::Value as Clone>::clone ](value: &serde_json::Value) -> (copy:
    serde_json::Value)
    ensures
        copy == *value,
;

/// Feature flag variation.
#[derive(Debug)]
pub enum Variation {
    Boolean(bool),
    String(String),
    /// A double-precision number, as its IEEE 754 bit pattern.
    Number(u64),
    Json(serde_json::Value),
}

impl Clone for Variation {
    fn clone(&self) -> (copy: Self)
        ensures
            copy == *self,
    {
        match self {
            Self::Boolean(b) => Self::Boolean(*b),
            Self::String(s) => Self::String(s.clone()),
            Self::Number(bits) => Self::Number(*bits),
            Self::Json(json) => Self::Json(json.clone()),
        }
    }
}

impl Variation {
    /// A boolean variation.
    pub fn boolean(value: bool) -> (variation: Self)
        ensures
            variation == Self::Boolean(value),
    {
        Self::Boolean(value)
    }

    /// A string variation.
    pub fn string(value: impl Into<String>) -> (variation: Self)
        ensures
            variation matches Self::String(text) && crate::text::converts_to(value, text@),
    {
        Self::String(value.into())
    }

    /// The variation of the number whose IEEE 754 bit pattern is `bits`.
    pub fn number(bits: u64) -> (variation: Self)
        ensures
            variation == Self::Number(bits),
    {
        Self::Number(bits)
    }

    /// The value of a boolean variation.
    pub fn as_bool(&self) -> (value: Option<bool>)
        ensures
            value == match *self {
                Self::Boolean(b) => Some(b),
                _ => None,
            },
    {
        match self {
            Self::Boolean(b) => Some(*b),
            _ => None,
        }
    }

    /// The text of a string variation.
    pub fn as_string(&self) -> (value: Option<&str>)
        ensures
            match *self {
                Self::String(text) => value matches Some(s) && s@ == text@,
                _ => value is None,
            },
    {
        match self {
            Self::String(s) => Some(s.as_str()),
            _ => None,
        }
    }

    /// The IEEE 754 bit pattern of a number variation.
    pub fn as_number(&self) -> (value: Option<u64>)
        ensures
            value == match *self {
                Self::Number(bits) => Some(bits),
                _ => None,
            },
    {
        match self {
            Self::Number(bits) => Some(*bits),
            _ => None,
        }
    }
}

} // verus!
