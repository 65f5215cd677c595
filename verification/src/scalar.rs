//! The built-in scalar types of GraphQL.
use vstd::prelude::*;

verus! {

/// One of the five built-in scalar types.
#[derive(Clone, Copy, Debug, PartialEq, Eq, Structural)]
pub enum BuiltinScalar {
    Int,
    Float,
    String,
    Boolean,
    ID,
}

/// The GraphQL name of a built-in scalar type.
pub open spec fn spec_scalar_name(s: BuiltinScalar) -> Seq<char> {
    match s {
        BuiltinScalar::Int => "Int"@,
        BuiltinScalar::Float => "Float"@,
        BuiltinScalar::String => "String"@,
        BuiltinScalar::Boolean => "Boolean"@,
        BuiltinScalar::ID => "ID"@,
    }
}

/// Calls `bluejay_core::BuiltinScalarDefinition::name`, which returns the
/// name of the enum variant (strum's `IntoStaticStr`), and so the GraphQL
/// name of the scalar.
#[verifier::external_body]
fn core_scalar_name(s: BuiltinScalar) -> (r: &'static str)
    ensures
        r@ == spec_scalar_name(s),
{
    let core = match s {
        BuiltinScalar::Int => bluejay_core::BuiltinScalarDefinition::Int,
        BuiltinScalar::Float => bluejay_core::BuiltinScalarDefinition::Float,
        BuiltinScalar::String => bluejay_core::BuiltinScalarDefinition::String,
        BuiltinScalar::Boolean => bluejay_core::BuiltinScalarDefinition::Boolean,
        BuiltinScalar::ID => bluejay_core::BuiltinScalarDefinition::ID,
    };
    core.name()
}

/// The Sorbet type that Ruby code sees for a built-in scalar.
pub open spec fn spec_sorbet_type_fully_qualified_name(s: BuiltinScalar) -> Seq<char> {
    match s {
        BuiltinScalar::Boolean => "T::Boolean"@,
        BuiltinScalar::Float => "Numeric"@,
        BuiltinScalar::ID => "T.any(String, Integer)"@,
        BuiltinScalar::Int => "Integer"@,
        BuiltinScalar::String => "String"@,
    }
}

impl BuiltinScalar {
    /// The GraphQL name of the scalar.
    pub fn name(&self) -> (r: &'static str)
        ensures
            r@ == spec_scalar_name(*self),
    {
        core_scalar_name(*self)
    }

    /// The Sorbet type that Ruby code sees for the scalar.
    pub fn sorbet_type_fully_qualified_name(&self) -> (r: &'static str)
        ensures
            r@ == spec_sorbet_type_fully_qualified_name(*self),
    {
        match self {
            BuiltinScalar::Boolean => "T::Boolean",
            BuiltinScalar::Float => "Numeric",
            BuiltinScalar::ID => "T.any(String, Integer)",
            BuiltinScalar::Int => "Integer",
            BuiltinScalar::String => "String",
        }
    }
}

} // verus!
