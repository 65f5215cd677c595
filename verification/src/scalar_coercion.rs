//! Coercion of Ruby values to the built-in scalar types.
use vstd::prelude::*;

use crate::coercion_error::{CoercionError, CoercionErrorView, errors_view, strings_view};
use crate::coercion_error::clone_strings;
use crate::ruby_value::{RubyData, RubyFloat, RubyValue, public_name, spec_public_name, spec_float_is_finite};
use crate::scalar::BuiltinScalar;
use crate::text::cat4;

verus! {

/// A single error for the value at `path`.
pub open spec fn one_error(message: Seq<char>, path: Seq<Seq<char>>) -> Seq<CoercionErrorView> {
    seq![(message, path)]
}

/// A list holding one error for the value at `path`.
pub fn error_at(message: String, path: &Vec<String>) -> (r: Vec<CoercionError>)
    ensures
        errors_view(r@) == one_error(message@, strings_view(path@)),
{
    let p = clone_strings(path);
    proof {
        assert(strings_view(p@) =~= strings_view(path@));
    }
    let e = CoercionError::new(message, p);
    let mut v: Vec<CoercionError> = Vec::new();
    v.push(e);
    proof {
        assert(errors_view(v@) =~= one_error(message@, strings_view(path@)));
    }
    v
}

pub open spec fn no_implicit_conversion(value: RubyData, target: Seq<char>) -> Seq<char> {
    "No implicit conversion of "@ + spec_public_name(value) + " to "@ + target
}

/// Whether a Ruby Integer fits in 32 signed bits.
pub open spec fn fits_i32(v: RubyData) -> bool {
    match v {
        RubyData::Integer(i) => -0x8000_0000 <= i <= 0x7fff_ffff,
        _ => false,
    }
}

pub open spec fn spec_coerce_string(v: RubyData, path: Seq<Seq<char>>) -> Result<RubyData, Seq<CoercionErrorView>> {
    if v is String {
        Ok(v)
    } else {
        Err(one_error(no_implicit_conversion(v, "String"@), path))
    }
}

pub open spec fn spec_coerce_integer(v: RubyData, path: Seq<Seq<char>>) -> Result<RubyData, Seq<CoercionErrorView>> {
    if v is Integer || v is BigInteger {
        if fits_i32(v) {
            Ok(v)
        } else {
            Err(one_error("Integer values must fit within 32 bits signed"@, path))
        }
    } else {
        Err(one_error(no_implicit_conversion(v, "integer"@), path))
    }
}

pub open spec fn spec_coerce_float(v: RubyData, path: Seq<Seq<char>>) -> Result<RubyData, Seq<CoercionErrorView>> {
    match v {
        RubyData::Float(f) => if spec_float_is_finite(f) {
            Ok(v)
        } else {
            Err(one_error("Float values must be finite"@, path))
        },
        RubyData::Integer(i) => if fits_i32(v) {
            Ok(RubyData::Float(RubyFloat::FromInteger(i as i32)))
        } else {
            Err(one_error("Integer values must fit within 32 bits signed"@, path))
        },
        RubyData::BigInteger { .. } => Err(one_error("Integer values must fit within 32 bits signed"@, path)),
        _ => Err(one_error(no_implicit_conversion(v, "Float"@), path)),
    }
}

pub open spec fn spec_coerce_boolean(v: RubyData, path: Seq<Seq<char>>) -> Result<RubyData, Seq<CoercionErrorView>> {
    if v is Boolean {
        Ok(v)
    } else {
        Err(one_error(no_implicit_conversion(v, "Boolean"@), path))
    }
}

pub open spec fn spec_coerce_id(v: RubyData, path: Seq<Seq<char>>) -> Result<RubyData, Seq<CoercionErrorView>> {
    if v is String {
        Ok(v)
    } else if v is Integer || v is BigInteger {
        spec_coerce_integer(v, path)
    } else {
        Err(one_error(no_implicit_conversion(v, "ID"@), path))
    }
}

/// The coercion of a Ruby value to a built-in scalar type.
pub open spec fn spec_coerce_builtin(s: BuiltinScalar, v: RubyData, path: Seq<Seq<char>>) -> Result<RubyData, Seq<CoercionErrorView>> {
    match s {
        BuiltinScalar::String => spec_coerce_string(v, path),
        BuiltinScalar::Int => spec_coerce_integer(v, path),
        BuiltinScalar::Float => spec_coerce_float(v, path),
        BuiltinScalar::Boolean => spec_coerce_boolean(v, path),
        BuiltinScalar::ID => spec_coerce_id(v, path),
    }
}

/// The view of a scalar coercion's result.
pub open spec fn scalar_result_view(r: Result<RubyValue, Vec<CoercionError>>) -> Result<RubyData, Seq<CoercionErrorView>> {
    match r {
        Ok(v) => Ok(v@),
        Err(e) => Err(errors_view(e@)),
    }
}

fn conversion_error(value: &RubyValue, target: &str, path: &Vec<String>) -> (r: Vec<CoercionError>)
    ensures
        errors_view(r@) == one_error(no_implicit_conversion(value@, target@), strings_view(path@)),
{
    error_at(cat4("No implicit conversion of ", public_name(value), " to ", target), path)
}

pub(crate) fn integer_range_error(path: &Vec<String>) -> (r: Vec<CoercionError>)
    ensures
        errors_view(r@) == one_error("Integer values must fit within 32 bits signed"@, strings_view(path@)),
{
    error_at(String::from_str("Integer values must fit within 32 bits signed"), path)
}

fn fits_i32_exec(value: &RubyValue) -> (r: bool)
    ensures
        r == fits_i32(value@),
{
    match value {
        RubyValue::Integer(i) => -0x8000_0000i64 <= *i && *i <= 0x7fff_ffffi64,
        _ => false,
    }
}

pub fn coerce_string(value: &RubyValue, path: &Vec<String>) -> (r: Result<RubyValue, Vec<CoercionError>>)
    ensures
        scalar_result_view(r) == spec_coerce_string(value@, strings_view(path@)),
{
    match value {
        RubyValue::String(_) => Ok(value.duplicate()),
        _ => Err(conversion_error(value, "String", path)),
    }
}

pub fn coerce_integer(value: &RubyValue, path: &Vec<String>) -> (r: Result<RubyValue, Vec<CoercionError>>)
    ensures
        scalar_result_view(r) == spec_coerce_integer(value@, strings_view(path@)),
{
    match value {
        RubyValue::Integer(_) | RubyValue::BigInteger { .. } => {
            if fits_i32_exec(value) {
                Ok(value.duplicate())
            } else {
                Err(integer_range_error(path))
            }
        },
        _ => Err(conversion_error(value, "integer", path)),
    }
}

pub fn coerce_float(value: &RubyValue, path: &Vec<String>) -> (r: Result<RubyValue, Vec<CoercionError>>)
    ensures
        scalar_result_view(r) == spec_coerce_float(value@, strings_view(path@)),
{
    match value {
        RubyValue::Float(f) => {
            if f.is_finite() {
                Ok(value.duplicate())
            } else {
                Err(error_at(String::from_str("Float values must be finite"), path))
            }
        },
        RubyValue::Integer(i) => {
            if fits_i32_exec(value) {
                Ok(RubyValue::Float(RubyFloat::FromInteger(*i as i32)))
            } else {
                Err(integer_range_error(path))
            }
        },
        RubyValue::BigInteger { .. } => Err(integer_range_error(path)),
        _ => Err(conversion_error(value, "Float", path)),
    }
}

pub fn coerce_boolean(value: &RubyValue, path: &Vec<String>) -> (r: Result<RubyValue, Vec<CoercionError>>)
    ensures
        scalar_result_view(r) == spec_coerce_boolean(value@, strings_view(path@)),
{
    match value {
        RubyValue::Boolean(_) => Ok(value.duplicate()),
        _ => Err(conversion_error(value, "Boolean", path)),
    }
}

pub fn coerce_id(value: &RubyValue, path: &Vec<String>) -> (r: Result<RubyValue, Vec<CoercionError>>)
    ensures
        scalar_result_view(r) == spec_coerce_id(value@, strings_view(path@)),
{
    match value {
        RubyValue::String(_) => Ok(value.duplicate()),
        RubyValue::Integer(_) | RubyValue::BigInteger { .. } => coerce_integer(value, path),
        _ => Err(conversion_error(value, "ID", path)),
    }
}

impl BuiltinScalar {
    /// Coerces a Ruby value to the scalar type.
    pub fn coerce_ruby_const_value(&self, value: &RubyValue, path: &Vec<String>) -> (r: Result<RubyValue, Vec<CoercionError>>)
        ensures
            scalar_result_view(r) == spec_coerce_builtin(*self, value@, strings_view(path@)),
    {
        match self {
            BuiltinScalar::String => coerce_string(value, path),
            BuiltinScalar::Int => coerce_integer(value, path),
            BuiltinScalar::Float => coerce_float(value, path),
            BuiltinScalar::Boolean => coerce_boolean(value, path),
            BuiltinScalar::ID => coerce_id(value, path),
        }
    }
}

} // verus!
