//! Coercion of the values that resolvers return to the types of their
//! fields, and the errors of fields.
use vstd::prelude::*;

use crate::input_coercion::{
    ScalarCallEvent, ScalarEventView, enum_has_value, not_a_result, not_a_result_message, type_error_message,
};
use crate::input_schema::{CoercionMethodSignature, InputSchema};
use crate::ruby_value::{RubyData, RubyValue, class_desc, spec_float_is_finite};
use crate::scalar::{BuiltinScalar, spec_scalar_name};
use crate::text::{cat2, cat3, cat4};

verus! {

/// Why the value of a field could not be completed.
#[derive(Debug)]
pub enum FieldError {
    ReturnedNullForNonNullType,
    ReturnedNonListForListType,
    CannotCoerceResultToBuiltinScalar { builtin_scalar: BuiltinScalar },
    CannotCoerceResultToEnumType,
    CannotCoerceResultToCustomScalar { message: String },
    ApplicationError(String),
}

pub enum FieldErrorView {
    ReturnedNullForNonNullType,
    ReturnedNonListForListType,
    CannotCoerceResultToBuiltinScalar { builtin_scalar: BuiltinScalar },
    CannotCoerceResultToEnumType,
    CannotCoerceResultToCustomScalar { message: Seq<char> },
    ApplicationError(Seq<char>),
}

impl View for FieldError {
    type V = FieldErrorView;

    open spec fn view(&self) -> FieldErrorView {
        match self {
            FieldError::ReturnedNullForNonNullType => FieldErrorView::ReturnedNullForNonNullType,
            FieldError::ReturnedNonListForListType => FieldErrorView::ReturnedNonListForListType,
            FieldError::CannotCoerceResultToBuiltinScalar { builtin_scalar } => FieldErrorView::CannotCoerceResultToBuiltinScalar {
                builtin_scalar: *builtin_scalar,
            },
            FieldError::CannotCoerceResultToEnumType => FieldErrorView::CannotCoerceResultToEnumType,
            FieldError::CannotCoerceResultToCustomScalar { message } => FieldErrorView::CannotCoerceResultToCustomScalar {
                message: message@,
            },
            FieldError::ApplicationError(m) => FieldErrorView::ApplicationError(m@),
        }
    }
}

/// The message of a field error.
pub open spec fn spec_field_error_message(e: FieldErrorView) -> Seq<char> {
    match e {
        FieldErrorView::ReturnedNullForNonNullType => "Cannot return null for non-nullable field"@,
        FieldErrorView::ReturnedNonListForListType => "Cannot return non-list for list field"@,
        FieldErrorView::CannotCoerceResultToBuiltinScalar { builtin_scalar } => "Cannot coerce result to builtin scalar `"@
            + spec_scalar_name(builtin_scalar) + "`"@,
        FieldErrorView::CannotCoerceResultToEnumType => "Cannot coerce result to enum type"@,
        FieldErrorView::CannotCoerceResultToCustomScalar { message } => message,
        FieldErrorView::ApplicationError(m) => "Application error: "@ + m,
    }
}

impl FieldError {
    pub fn message(&self) -> (r: String)
        ensures
            r@ == spec_field_error_message(self@),
    {
        match self {
            FieldError::ReturnedNullForNonNullType => String::from_str("Cannot return null for non-nullable field"),
            FieldError::ReturnedNonListForListType => String::from_str("Cannot return non-list for list field"),
            FieldError::CannotCoerceResultToBuiltinScalar { builtin_scalar } => cat3(
                "Cannot coerce result to builtin scalar `",
                builtin_scalar.name(),
                "`",
            ),
            FieldError::CannotCoerceResultToEnumType => String::from_str("Cannot coerce result to enum type"),
            FieldError::CannotCoerceResultToCustomScalar { message } => message.clone(),
            FieldError::ApplicationError(m) => cat2("Application error: ", m.as_str()),
        }
    }
}

/// Whether Ruby converts the value to a finite `Float`.
pub open spec fn converts_to_finite_float(v: RubyData) -> bool {
    match v {
        RubyData::Integer(_) => true,
        RubyData::Float(f) => spec_float_is_finite(f),
        RubyData::BigInteger { finite_float, .. } => finite_float,
        RubyData::Opaque { finite_float, .. } => finite_float,
        _ => false,
    }
}

/// Whether a value is a Ruby Integer that fits in 32 signed bits.
pub open spec fn is_i32_integer(v: RubyData) -> bool {
    match v {
        RubyData::Integer(i) => -0x8000_0000 <= i <= 0x7fff_ffff,
        _ => false,
    }
}

/// Whether a resolver's value is a valid result of a built-in scalar type.
pub open spec fn spec_builtin_result_ok(s: BuiltinScalar, v: RubyData) -> bool {
    match s {
        BuiltinScalar::Boolean => v is Boolean,
        BuiltinScalar::Float => converts_to_finite_float(v),
        BuiltinScalar::ID => v is String || is_i32_integer(v),
        BuiltinScalar::Int => is_i32_integer(v),
        BuiltinScalar::String => v is String,
    }
}

fn is_i32_integer_exec(value: &RubyValue) -> (r: bool)
    ensures
        r == is_i32_integer(value@),
{
    match value {
        RubyValue::Integer(i) => -0x8000_0000i64 <= *i && *i <= 0x7fff_ffffi64,
        _ => false,
    }
}

fn converts_to_finite_float_exec(value: &RubyValue) -> (r: bool)
    ensures
        r == converts_to_finite_float(value@),
{
    match value {
        RubyValue::Integer(_) => true,
        RubyValue::Float(f) => f.is_finite(),
        RubyValue::BigInteger { finite_float, .. } => *finite_float,
        RubyValue::Opaque { finite_float, .. } => *finite_float,
        _ => false,
    }
}

impl BuiltinScalar {
    /// The value itself where it is a valid result of the scalar type, an
    /// error that names the scalar otherwise.
    pub fn coerce_result(&self, value: &RubyValue) -> (r: Result<RubyValue, FieldError>)
        ensures
            spec_builtin_result_ok(*self, value@) ==> (r matches Ok(v) && v@ == value@),
            !spec_builtin_result_ok(*self, value@) ==> (r matches Err(e) && e@
                == FieldErrorView::CannotCoerceResultToBuiltinScalar { builtin_scalar: *self }),
    {
        let ok = match self {
            BuiltinScalar::Boolean => match value {
                RubyValue::Boolean(_) => true,
                _ => false,
            },
            BuiltinScalar::Float => converts_to_finite_float_exec(value),
            BuiltinScalar::ID => match value {
                RubyValue::String(_) => true,
                _ => is_i32_integer_exec(value),
            },
            BuiltinScalar::Int => is_i32_integer_exec(value),
            BuiltinScalar::String => match value {
                RubyValue::String(_) => true,
                _ => false,
            },
        };
        if ok {
            Ok(value.duplicate())
        } else {
            Err(FieldError::CannotCoerceResultToBuiltinScalar { builtin_scalar: *self })
        }
    }
}

/// Whether a resolver's value is a valid result of the enum type `idx`: a
/// string naming one of its values.
pub open spec fn spec_enum_result_ok(schema: InputSchema, idx: usize, v: RubyData) -> bool {
    match v {
        RubyData::String(s) => enum_has_value(schema.enums@[idx as int], s),
        _ => false,
    }
}

/// The value itself where it is a string naming a value of the enum type,
/// an error otherwise.
pub fn coerce_enum_result(schema: &InputSchema, idx: usize, value: &RubyValue) -> (r: Result<RubyValue, FieldError>)
    requires
        idx < schema.enums@.len(),
    ensures
        spec_enum_result_ok(*schema, idx, value@) ==> (r matches Ok(v) && v@ == value@),
        !spec_enum_result_ok(*schema, idx, value@) ==> (r matches Err(e) && e@
            == FieldErrorView::CannotCoerceResultToEnumType),
{
    let e = &schema.enums[idx];
    match value {
        RubyValue::String(s) => {
            let mut k: usize = 0;
            while k < e.enum_value_definitions.len()
                invariant
                    k <= e.enum_value_definitions@.len(),
                    idx < schema.enums@.len(),
                    *e == schema.enums@[idx as int],
                    value@ == RubyData::String(s@),
                    forall|j: int| 0 <= j < k ==> e.enum_value_definitions@[j].name@ != s@,
                decreases e.enum_value_definitions@.len() - k,
            {
                if e.enum_value_definitions[k].name == *s {
                    proof {
                        assert(e.enum_value_definitions@[k as int].name@ == s@);
                    }
                    return Ok(value.duplicate());
                }
                k = k + 1;
            }
            Err(FieldError::CannotCoerceResultToEnumType)
        },
        _ => Err(FieldError::CannotCoerceResultToEnumType),
    }
}

/// The result of a custom scalar's result coercion, given what the call of
/// its `coerce_result` did.
pub open spec fn spec_custom_scalar_result(sig: CoercionMethodSignature, ev: ScalarEventView) -> Result<
    RubyData,
    FieldErrorView,
> {
    match ev {
        ScalarEventView::Returned { value, result } => match sig {
            CoercionMethodSignature::Result => match result {
                Some(Ok(v)) => Ok(v),
                Some(Err(e)) => match e {
                    RubyData::String(m) => Err(FieldErrorView::CannotCoerceResultToCustomScalar { message: m }),
                    _ => Err(FieldErrorView::ApplicationError(type_error_message(e, "String"@))),
                },
                None => Err(FieldErrorView::ApplicationError(not_a_result_message(value))),
            },
            CoercionMethodSignature::Exception => Ok(value),
        },
        ScalarEventView::Raised { declared, message } => if sig == CoercionMethodSignature::Exception && declared {
            Err(FieldErrorView::CannotCoerceResultToCustomScalar { message })
        } else {
            Err(FieldErrorView::ApplicationError(message))
        },
    }
}

/// The view of a result coercion's outcome.
pub open spec fn result_view(r: Result<RubyValue, FieldError>) -> Result<RubyData, FieldErrorView> {
    match r {
        Ok(v) => Ok(v@),
        Err(e) => Err(e@),
    }
}

/// The result of a custom scalar's result coercion, given what the call of
/// its `coerce_result` did.
pub fn custom_scalar_result(sig: CoercionMethodSignature, ev: &ScalarCallEvent) -> (r: Result<RubyValue, FieldError>)
    ensures
        result_view(r) == spec_custom_scalar_result(sig, ev@),
{
    match ev {
        ScalarCallEvent::Returned { value, result } => match sig {
            CoercionMethodSignature::Result => match result {
                Some(Ok(v)) => Ok(v.duplicate()),
                Some(Err(e)) => match e {
                    RubyValue::String(m) => Err(FieldError::CannotCoerceResultToCustomScalar { message: m.clone() }),
                    _ => Err(FieldError::ApplicationError(cat4("no implicit conversion of ", class_desc(e), " into ", "String"))),
                },
                None => Err(FieldError::ApplicationError(not_a_result(value))),
            },
            CoercionMethodSignature::Exception => Ok(value.duplicate()),
        },
        ScalarCallEvent::Raised { declared, message } => {
            let is_exception = match sig {
                CoercionMethodSignature::Exception => true,
                CoercionMethodSignature::Result => false,
            };
            if is_exception && *declared {
                Err(FieldError::CannotCoerceResultToCustomScalar { message: message.clone() })
            } else {
                Err(FieldError::ApplicationError(message.clone()))
            }
        },
    }
}

} // verus!
