//! The input side of a schema: input types and the definitions they name.
use vstd::prelude::*;

use crate::ruby_value::RubyValue;
use crate::scalar::{BuiltinScalar, spec_scalar_name, spec_sorbet_type_fully_qualified_name};
use crate::introspection::TypeKind;
use crate::text::cat3;

verus! {

/// The named type at the bottom of an input type.  Definitions are named by
/// their index in the lists of an [`InputSchema`].
#[derive(Clone, Copy, Debug, PartialEq, Eq)]
pub enum BaseInputType {
    BuiltinScalar(BuiltinScalar),
    CustomScalar(usize),
    InputObject(usize),
    Enum(usize),
}

/// An input type: a named type or a list, each either required (non-null)
/// or nullable.
#[derive(Debug, PartialEq, Eq)]
pub enum InputType {
    Base(BaseInputType, bool),
    List(Box<InputType>, bool),
}

/// How a custom scalar's Ruby class reports that a value does not coerce.
#[derive(Clone, Copy, Debug, PartialEq, Eq)]
pub enum CoercionMethodSignature {
    /// The method returns a `Bluejay::Result`.
    Result,
    /// The method raises an exception of a declared class.
    Exception,
}

/// A directive applied to a definition: the name of its directive
/// definition and the keyword arguments that its Ruby class was
/// instantiated with, in order.
#[derive(Debug)]
pub struct Directive {
    pub definition_name: String,
    pub arguments: Vec<(String, RubyValue)>,
}

/// One value of an enum type.
#[derive(Debug)]
pub struct EnumValueDefinition {
    pub name: String,
    pub description: Option<String>,
    pub directives: Vec<Directive>,
    pub deprecation_reason: Option<String>,
}

/// An enum type.
#[derive(Debug)]
pub struct EnumTypeDefinition {
    pub name: String,
    pub description: Option<String>,
    pub enum_value_definitions: Vec<EnumValueDefinition>,
    pub directives: Vec<Directive>,
    /// The Ruby class whose instances the schema's users define the type by.
    pub ruby_class_name: String,
}

/// A custom scalar type, whose coercion its Ruby class performs.
#[derive(Debug)]
pub struct CustomScalarTypeDefinition {
    pub name: String,
    pub description: Option<String>,
    pub directives: Vec<Directive>,
    pub specified_by_url: Option<String>,
    /// The Ruby class that performs the coercions.
    pub ruby_class_name: String,
    pub internal_representation_sorbet_type_name: String,
    pub input_coercion_method_signature: CoercionMethodSignature,
    pub result_coercion_method_signature: CoercionMethodSignature,
}

/// A field of an input object type, or an argument.
#[derive(Debug)]
pub struct InputValueDefinition {
    pub name: String,
    pub description: Option<String>,
    pub input_type: InputType,
    pub directives: Vec<Directive>,
    /// The default value, coerced to the type: a default whose coercion
    /// fails is reported where the schema is built and is not kept.
    pub default_value: Option<RubyValue>,
    /// The GraphQL value of the default, built beside its coerced value.
    pub default_inner: Option<crate::inner_value::InnerValue>,
    /// The keyword under which Ruby code receives the value.
    pub ruby_name: String,
    pub deprecation_reason: Option<String>,
}

/// An input object type with the fields that the current viewer can see.
#[derive(Debug)]
pub struct InputObjectTypeDefinition {
    pub name: String,
    pub description: Option<String>,
    pub input_field_definitions: Vec<InputValueDefinition>,
    pub directives: Vec<Directive>,
    /// The Ruby class whose instances hold coerced values of the type.
    pub ruby_class_name: String,
}

/// The definitions that input types name.
#[derive(Debug)]
pub struct InputSchema {
    pub enums: Vec<EnumTypeDefinition>,
    pub input_objects: Vec<InputObjectTypeDefinition>,
    pub custom_scalars: Vec<CustomScalarTypeDefinition>,
}

/// The number of list wrappers of a type.
pub open spec fn type_depth(ty: InputType) -> nat
    decreases ty,
{
    match ty {
        InputType::Base(_, _) => 0,
        InputType::List(inner, _) => 1 + type_depth(*inner),
    }
}

pub open spec fn base_wf(schema: InputSchema, base: BaseInputType) -> bool {
    match base {
        BaseInputType::BuiltinScalar(_) => true,
        BaseInputType::CustomScalar(i) => i < schema.custom_scalars@.len(),
        BaseInputType::InputObject(i) => i < schema.input_objects@.len(),
        BaseInputType::Enum(i) => i < schema.enums@.len(),
    }
}

/// Every definition that the type names is in the schema.
pub open spec fn type_wf(schema: InputSchema, ty: InputType) -> bool
    decreases ty,
{
    match ty {
        InputType::Base(base, _) => base_wf(schema, base),
        InputType::List(inner, _) => type_wf(schema, *inner),
    }
}

/// Every type that a field of an input object names is in the schema.
pub open spec fn schema_wf(schema: InputSchema) -> bool {
    forall|i: int, j: int|
        0 <= i < schema.input_objects@.len() && 0 <= j
            < schema.input_objects@[i].input_field_definitions@.len() ==> type_wf(
            schema,
            #[trigger] schema.input_objects@[i].input_field_definitions@[j].input_type,
        )
}

pub open spec fn spec_is_required(ty: InputType) -> bool {
    match ty {
        InputType::Base(_, r) => r,
        InputType::List(_, r) => r,
    }
}

/// The GraphQL name of a named input type.
pub open spec fn spec_base_name(schema: InputSchema, base: BaseInputType) -> Seq<char> {
    match base {
        BaseInputType::BuiltinScalar(s) => spec_scalar_name(s),
        BaseInputType::CustomScalar(i) => schema.custom_scalars@[i as int].name@,
        BaseInputType::InputObject(i) => schema.input_objects@[i as int].name@,
        BaseInputType::Enum(i) => schema.enums@[i as int].name@,
    }
}

/// How GraphQL writes a type: `Name`, `[Inner]`, with `!` when required.
pub open spec fn spec_display_name(schema: InputSchema, ty: InputType) -> Seq<char>
    decreases ty,
{
    match ty {
        InputType::Base(base, r) => spec_base_name(schema, base) + if r {
            "!"@
        } else {
            ""@
        },
        InputType::List(inner, r) => "["@ + spec_display_name(schema, *inner) + "]"@ + if r {
            "!"@
        } else {
            ""@
        },
    }
}

impl InputSchema {
    /// The GraphQL name of a named input type.
    pub fn base_name(&self, base: BaseInputType) -> (r: &str)
        requires
            base_wf(*self, base),
        ensures
            r@ == spec_base_name(*self, base),
    {
        match base {
            BaseInputType::BuiltinScalar(s) => s.name(),
            BaseInputType::CustomScalar(i) => self.custom_scalars[i].name.as_str(),
            BaseInputType::InputObject(i) => self.input_objects[i].name.as_str(),
            BaseInputType::Enum(i) => self.enums[i].name.as_str(),
        }
    }

    /// How GraphQL writes a type.
    pub fn display_name(&self, ty: &InputType) -> (r: String)
        requires
            type_wf(*self, *ty),
        ensures
            r@ == spec_display_name(*self, *ty),
        decreases ty,
    {
        match ty {
            InputType::Base(base, required) => {
                let mut s = String::from_str(self.base_name(*base));
                if *required {
                    s.append("!");
                } else {
                    s.append("");
                }
                s
            },
            InputType::List(inner, required) => {
                let mut s = String::from_str("[");
                let inner_name = self.display_name(inner);
                s.append(inner_name.as_str());
                s.append("]");
                if *required {
                    s.append("!");
                } else {
                    s.append("");
                }
                s
            },
        }
    }
}

impl InputType {
    pub fn is_required(&self) -> (r: bool)
        ensures
            r == spec_is_required(*self),
    {
        match self {
            InputType::Base(_, r) => *r,
            InputType::List(_, r) => *r,
        }
    }

    pub fn is_list(&self) -> (r: bool)
        ensures
            r == (*self is List),
    {
        match self {
            InputType::Base(_, _) => false,
            InputType::List(_, _) => true,
        }
    }

    pub fn is_base(&self) -> (r: bool)
        ensures
            r == (*self is Base),
    {
        match self {
            InputType::Base(_, _) => true,
            InputType::List(_, _) => false,
        }
    }

    /// A copy of the type.
    pub fn duplicate(&self) -> (r: InputType)
        ensures
            r == *self,
        decreases self,
    {
        match self {
            InputType::Base(b, r) => InputType::Base(*b, *r),
            InputType::List(inner, r) => InputType::List(Box::new(inner.duplicate()), *r),
        }
    }

    /// The element type of a list type; a named type is refused.
    pub fn unwrap_list(&self) -> (r: Result<InputType, String>)
        ensures
            match *self {
                InputType::List(inner, _) => r == Ok::<InputType, String>(*inner),
                InputType::Base(_, _) => r is Err && r->Err_0@ == "Tried to unwrap a non-list InputTypeReference"@,
            },
    {
        match self {
            InputType::List(inner, _) => Ok(inner.duplicate()),
            InputType::Base(_, _) => {
                proof {
                    reveal_strlit("Tried to unwrap a non-list InputTypeReference");
                }
                Err(String::from_str("Tried to unwrap a non-list InputTypeReference"))
            },
        }
    }
}

/// A variable's type as a document writes it.
#[derive(Debug)]
pub enum DeclaredType {
    Named(String, bool),
    List(Box<DeclaredType>, bool),
}

/// The input type of a variable whose named type is `base`.
pub open spec fn spec_from_variable_type(vt: DeclaredType, base: BaseInputType) -> InputType
    decreases vt,
{
    match vt {
        DeclaredType::Named(_, r) => InputType::Base(base, r),
        DeclaredType::List(inner, r) => InputType::List(Box::new(spec_from_variable_type(*inner, base)), r),
    }
}

/// The Sorbet type of values of a named input type.
pub open spec fn spec_base_sorbet_type(schema: InputSchema, base: BaseInputType) -> Seq<char> {
    match base {
        BaseInputType::BuiltinScalar(s) => spec_sorbet_type_fully_qualified_name(s),
        BaseInputType::CustomScalar(_) => "T.untyped"@,
        BaseInputType::Enum(_) => "String"@,
        BaseInputType::InputObject(i) => schema.input_objects@[i as int].ruby_class_name@,
    }
}

/// The Sorbet type of values of an input type: nilable unless required.
pub open spec fn spec_sorbet_type(schema: InputSchema, ty: InputType) -> Seq<char>
    decreases ty,
{
    let inner = match ty {
        InputType::List(inner, _) => "T::Array["@ + spec_sorbet_type(schema, *inner) + "]"@,
        InputType::Base(base, _) => spec_base_sorbet_type(schema, base),
    };
    if spec_is_required(ty) {
        inner
    } else {
        "T.nilable("@ + inner + ")"@
    }
}

/// The kind that introspection reports for an input type.
pub open spec fn spec_input_kind(ty: InputType) -> TypeKind {
    match ty {
        InputType::Base(base, r) => if r {
            TypeKind::NonNull
        } else {
            match base {
                BaseInputType::BuiltinScalar(_) | BaseInputType::CustomScalar(_) => TypeKind::Scalar,
                BaseInputType::Enum(_) => TypeKind::Enum,
                BaseInputType::InputObject(_) => TypeKind::InputObject,
            }
        },
        InputType::List(_, r) => if r {
            TypeKind::NonNull
        } else {
            TypeKind::List
        },
    }
}

/// The type that introspection reports an input type to wrap.
pub open spec fn spec_input_of_type(ty: InputType) -> Option<InputType> {
    match ty {
        InputType::Base(base, r) => if r {
            Some(InputType::Base(base, false))
        } else {
            None
        },
        InputType::List(inner, r) => if r {
            Some(InputType::List(inner, false))
        } else {
            Some(*inner)
        },
    }
}

impl InputType {
    pub fn new(base: BaseInputType, required: bool) -> (r: InputType)
        ensures
            r == InputType::Base(base, required),
    {
        InputType::Base(base, required)
    }

    pub fn list(inner: InputType, required: bool) -> (r: InputType)
        ensures
            r == InputType::List(Box::new(inner), required),
    {
        InputType::List(Box::new(inner), required)
    }

    /// The input type of a variable whose named type is `base`: the same
    /// list wrappers, each required where the document says so.
    pub fn from_parser_variable_type(vt: &DeclaredType, base: BaseInputType) -> (r: InputType)
        ensures
            r == spec_from_variable_type(*vt, base),
        decreases vt,
    {
        match vt {
            DeclaredType::Named(_, r) => InputType::Base(base, *r),
            DeclaredType::List(inner, r) => InputType::List(
                Box::new(InputType::from_parser_variable_type(inner, base)),
                *r,
            ),
        }
    }

    /// The kind that introspection reports for the type.
    pub fn kind(&self) -> (r: TypeKind)
        ensures
            r == spec_input_kind(*self),
    {
        match self {
            InputType::Base(base, r) => if *r {
                TypeKind::NonNull
            } else {
                match base {
                    BaseInputType::BuiltinScalar(_) | BaseInputType::CustomScalar(_) => TypeKind::Scalar,
                    BaseInputType::Enum(_) => TypeKind::Enum,
                    BaseInputType::InputObject(_) => TypeKind::InputObject,
                }
            },
            InputType::List(_, r) => if *r {
                TypeKind::NonNull
            } else {
                TypeKind::List
            },
        }
    }

    /// The type that introspection reports this type to wrap: the nullable
    /// form of a required type, the element type of a nullable list.
    pub fn of_type(&self) -> (r: Option<InputType>)
        ensures
            r == spec_input_of_type(*self),
    {
        match self {
            InputType::Base(base, r) => if *r {
                Some(InputType::Base(*base, false))
            } else {
                None
            },
            InputType::List(inner, r) => if *r {
                Some(InputType::List(Box::new(inner.duplicate()), false))
            } else {
                Some(inner.duplicate())
            },
        }
    }
}

impl InputSchema {
    /// The name that introspection reports for a type: that of a nullable
    /// named type, and none for the others.
    pub fn introspection_name(&self, ty: &InputType) -> (r: Option<&str>)
        requires
            type_wf(*self, *ty),
        ensures
            match *ty {
                InputType::Base(base, false) => r matches Some(n) && n@ == spec_base_name(*self, base),
                _ => r is None,
            },
    {
        match ty {
            InputType::Base(base, false) => Some(self.base_name(*base)),
            _ => None,
        }
    }

    /// The Sorbet type of the values of a named input type.
    pub fn base_sorbet_type(&self, base: BaseInputType) -> (r: String)
        requires
            base_wf(*self, base),
        ensures
            r@ == spec_base_sorbet_type(*self, base),
    {
        match base {
            BaseInputType::BuiltinScalar(s) => String::from_str(s.sorbet_type_fully_qualified_name()),
            BaseInputType::CustomScalar(_) => String::from_str("T.untyped"),
            BaseInputType::Enum(_) => String::from_str("String"),
            BaseInputType::InputObject(i) => self.input_objects[i].ruby_class_name.clone(),
        }
    }

    /// The Sorbet type of the values of an input type.
    pub fn sorbet_type(&self, ty: &InputType) -> (r: String)
        requires
            type_wf(*self, *ty),
        ensures
            r@ == spec_sorbet_type(*self, *ty),
        decreases ty,
    {
        let inner = match ty {
            InputType::List(inner, _) => {
                let s = self.sorbet_type(inner);
                cat3("T::Array[", s.as_str(), "]")
            },
            InputType::Base(base, _) => self.base_sorbet_type(*base),
        };
        if ty.is_required() {
            inner
        } else {
            cat3("T.nilable(", inner.as_str(), ")")
        }
    }
}

} // verus!
