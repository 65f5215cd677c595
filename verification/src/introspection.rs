//! What introspection reports of types: their kinds, and which of their
//! fields and enum values it lists.
use vstd::prelude::*;

use crate::input_schema::EnumValueDefinition;
use crate::output_schema::FieldDefinition;

verus! {

/// The `__TypeKind` of a type.
#[derive(Clone, Copy, Debug, PartialEq, Eq, Structural)]
pub enum TypeKind {
    Scalar,
    Object,
    Interface,
    Union,
    Enum,
    InputObject,
    List,
    NonNull,
}

/// The name of a kind as introspection writes it.
pub open spec fn spec_kind_name(k: TypeKind) -> Seq<char> {
    match k {
        TypeKind::Scalar => "SCALAR"@,
        TypeKind::Object => "OBJECT"@,
        TypeKind::Interface => "INTERFACE"@,
        TypeKind::Union => "UNION"@,
        TypeKind::Enum => "ENUM"@,
        TypeKind::InputObject => "INPUT_OBJECT"@,
        TypeKind::List => "LIST"@,
        TypeKind::NonNull => "NON_NULL"@,
    }
}

impl TypeKind {
    /// The name of the kind, its variant's name in screaming snake case.
    pub fn name(&self) -> (r: &'static str)
        ensures
            r@ == spec_kind_name(*self),
    {
        match self {
            TypeKind::Scalar => "SCALAR",
            TypeKind::Object => "OBJECT",
            TypeKind::Interface => "INTERFACE",
            TypeKind::Union => "UNION",
            TypeKind::Enum => "ENUM",
            TypeKind::InputObject => "INPUT_OBJECT",
            TypeKind::List => "LIST",
            TypeKind::NonNull => "NON_NULL",
        }
    }
}

/// Whether introspection lists a field: one not built in, and, unless
/// deprecated ones are asked for too, not deprecated.
pub open spec fn spec_field_listed(is_builtin: bool, deprecated: bool, include_deprecated: bool) -> bool {
    !is_builtin && (include_deprecated || !deprecated)
}

pub fn field_listed(is_builtin: bool, deprecated: bool, include_deprecated: bool) -> (r: bool)
    ensures
        r == spec_field_listed(is_builtin, deprecated, include_deprecated),
{
    !is_builtin && (include_deprecated || !deprecated)
}

/// Whether introspection lists an enum value: all of them where deprecated
/// ones are asked for, else those not deprecated.
pub open spec fn spec_enum_value_listed(deprecated: bool, include_deprecated: bool) -> bool {
    include_deprecated || !deprecated
}

pub fn enum_value_listed(deprecated: bool, include_deprecated: bool) -> (r: bool)
    ensures
        r == spec_enum_value_listed(deprecated, include_deprecated),
{
    include_deprecated || !deprecated
}

/// The indices of the first `n` fields that introspection lists: those
/// not built in, and, unless deprecated ones are asked for too, those not
/// deprecated.
pub open spec fn spec_listed_fields(fields: Seq<FieldDefinition>, include_deprecated: bool, n: int) -> Seq<usize>
    decreases n,
{
    if n <= 0 {
        Seq::empty()
    } else {
        let prev = spec_listed_fields(fields, include_deprecated, n - 1);
        let f = fields[n - 1];
        if spec_field_listed(f.is_builtin, f.deprecation_reason is Some, include_deprecated) {
            prev.push((n - 1) as usize)
        } else {
            prev
        }
    }
}

/// The fields that introspection lists, by index, in order.
pub fn listed_fields(fields: &Vec<FieldDefinition>, include_deprecated: bool) -> (r: Vec<usize>)
    ensures
        r@ == spec_listed_fields(fields@, include_deprecated, fields@.len() as int),
{
    let mut r: Vec<usize> = Vec::new();
    let mut k: usize = 0;
    while k < fields.len()
        invariant
            k <= fields@.len(),
            r@ == spec_listed_fields(fields@, include_deprecated, k as int),
        decreases fields@.len() - k,
    {
        let f = &fields[k];
        if field_listed(f.is_builtin, f.is_deprecated(), include_deprecated) {
            r.push(k);
        }
        k = k + 1;
    }
    r
}

/// The indices of the first `n` enum values that introspection lists: all
/// of them where deprecated ones are asked for, else those not deprecated.
pub open spec fn spec_listed_enum_values(values: Seq<EnumValueDefinition>, include_deprecated: bool, n: int) -> Seq<usize>
    decreases n,
{
    if n <= 0 {
        Seq::empty()
    } else {
        let prev = spec_listed_enum_values(values, include_deprecated, n - 1);
        if spec_enum_value_listed(values[n - 1].deprecation_reason is Some, include_deprecated) {
            prev.push((n - 1) as usize)
        } else {
            prev
        }
    }
}

/// The enum values that introspection lists, by index, in order.
pub fn listed_enum_values(values: &Vec<EnumValueDefinition>, include_deprecated: bool) -> (r: Vec<usize>)
    ensures
        r@ == spec_listed_enum_values(values@, include_deprecated, values@.len() as int),
{
    let mut r: Vec<usize> = Vec::new();
    let mut k: usize = 0;
    while k < values.len()
        invariant
            k <= values@.len(),
            r@ == spec_listed_enum_values(values@, include_deprecated, k as int),
        decreases values@.len() - k,
    {
        if enum_value_listed(values[k].is_deprecated(), include_deprecated) {
            r.push(k);
        }
        k = k + 1;
    }
    r
}

} // verus!
