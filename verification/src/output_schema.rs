//! The output side of a schema: object, interface and union types, their
//! fields, and the schema that holds every definition.
use vstd::prelude::*;

use crate::coercion_error::strings_view;
use crate::definitions::{
    DirectiveDefinition, directives_view, push_single_argument_directive, snake_case, spec_directives_with,
    ruby_name_or_snake_case,
};
use crate::input_schema::{Directive, InputSchema, InputValueDefinition};
use crate::introspection::TypeKind;
use crate::scalar::{BuiltinScalar, spec_scalar_name, spec_sorbet_type_fully_qualified_name};
use crate::text::{cat2, cat3, spec_starts_with, starts_with, str_eq};

verus! {

/// The named type at the bottom of an output type.  Enums and custom
/// scalars are named by their index in the schema's input side, the others
/// by their index in the schema's own lists.
#[derive(Clone, Copy, Debug, PartialEq, Eq, Structural)]
pub enum BaseOutputType {
    BuiltinScalar(BuiltinScalar),
    CustomScalar(usize),
    Enum(usize),
    Object(usize),
    Interface(usize),
    Union(usize),
}

/// An output type: a named type or a list, each required or nullable.
#[derive(Debug, PartialEq, Eq)]
pub enum OutputType {
    Base(BaseOutputType, bool),
    List(Box<OutputType>, bool),
}

/// An argument that a resolver receives besides the field's arguments.
#[derive(Clone, Copy, Debug, PartialEq, Eq, Structural)]
pub enum ExtraResolverArg {
    /// The schema's Ruby class, for the introspection fields.
    SchemaClass,
}

impl ExtraResolverArg {
    /// The keyword under which the resolver receives the argument.
    pub fn kwarg_name(&self) -> (r: &'static str)
        ensures
            r@ == "schema_class"@,
    {
        proof {
            reveal_strlit("schema_class");
        }
        match self {
            ExtraResolverArg::SchemaClass => "schema_class",
        }
    }
}

/// A field of an object or interface type.
#[derive(Debug)]
pub struct FieldDefinition {
    pub name: String,
    pub description: Option<String>,
    pub argument_definitions: Vec<InputValueDefinition>,
    pub output_type: OutputType,
    pub directives: Vec<Directive>,
    /// Whether the field is one of the introspection fields.
    pub is_builtin: bool,
    /// The method of the resolver that computes the field.
    pub ruby_resolver_method_name: String,
    pub extra_resolver_args: Vec<ExtraResolverArg>,
    pub deprecation_reason: Option<String>,
}

/// Whether a name is reserved for introspection: it starts with `__`.
pub open spec fn is_introspection_name(name: Seq<char>) -> bool {
    spec_starts_with(name, "__"@)
}

/// Whether a field's name is reserved for introspection.
pub fn is_introspection_field_name(name: &str) -> (r: bool)
    ensures
        r == is_introspection_name(name@),
{
    proof {
        reveal_strlit("__");
    }
    starts_with(name, "__")
}

/// The extra arguments of a field's resolver: the schema's class for the
/// `__schema` and `__type` fields, none for the others.
pub open spec fn spec_extra_resolver_args(name: Seq<char>) -> Seq<ExtraResolverArg> {
    if name == "__schema"@ || name == "__type"@ {
        seq![ExtraResolverArg::SchemaClass]
    } else {
        Seq::empty()
    }
}

impl FieldDefinition {
    /// A field whose resolver method is `ruby_resolver_method_name`; a
    /// deprecation reason adds a use of the `deprecated` directive.
    pub fn with_resolver_method_name(
        name: String,
        output_type: OutputType,
        argument_definitions: Vec<InputValueDefinition>,
        description: Option<String>,
        directives: Vec<Directive>,
        ruby_resolver_method_name: String,
        deprecation_reason: Option<String>,
        deprecated: &DirectiveDefinition,
    ) -> (r: FieldDefinition)
        requires
            deprecation_reason is Some ==> deprecated.arguments_definition@.len() > 0,
        ensures
            r.name == name,
            r.output_type == output_type,
            r.argument_definitions == argument_definitions,
            r.description == description,
            directives_view(r.directives@) == spec_directives_with(directives@, *deprecated, deprecation_reason),
            r.is_builtin == is_introspection_name(name@),
            r.ruby_resolver_method_name == ruby_resolver_method_name,
            r.extra_resolver_args@ == spec_extra_resolver_args(name@),
            r.deprecation_reason == deprecation_reason,
    {
        let mut directives = directives;
        push_single_argument_directive(&mut directives, deprecated, &deprecation_reason);
        let is_builtin = is_introspection_field_name(name.as_str());
        let mut extra_resolver_args: Vec<ExtraResolverArg> = Vec::new();
        if str_eq(name.as_str(), "__schema") || str_eq(name.as_str(), "__type") {
            extra_resolver_args.push(ExtraResolverArg::SchemaClass);
        }
        proof {
            reveal_strlit("__schema");
            reveal_strlit("__type");
            assert(extra_resolver_args@ =~= spec_extra_resolver_args(name@));
        }
        FieldDefinition {
            name,
            description,
            argument_definitions,
            output_type,
            directives,
            is_builtin,
            ruby_resolver_method_name,
            extra_resolver_args,
            deprecation_reason,
        }
    }

    /// A field; its resolver method is the one given, or the field's name
    /// in snake case.
    pub fn new(
        name: String,
        output_type: OutputType,
        argument_definitions: Vec<InputValueDefinition>,
        description: Option<String>,
        directives: Vec<Directive>,
        resolver_method_name: Option<String>,
        deprecation_reason: Option<String>,
        deprecated: &DirectiveDefinition,
    ) -> (r: FieldDefinition)
        requires
            deprecation_reason is Some ==> deprecated.arguments_definition@.len() > 0,
        ensures
            r.name == name,
            r.output_type == output_type,
            r.argument_definitions == argument_definitions,
            r.description == description,
            directives_view(r.directives@) == spec_directives_with(directives@, *deprecated, deprecation_reason),
            r.is_builtin == is_introspection_name(name@),
            r.ruby_resolver_method_name@ == (match resolver_method_name {
                Some(m) => m@,
                None => snake_case(name@),
            }),
            r.extra_resolver_args@ == spec_extra_resolver_args(name@),
            r.deprecation_reason == deprecation_reason,
    {
        let method = ruby_name_or_snake_case(name.as_str(), &resolver_method_name);
        FieldDefinition::with_resolver_method_name(
            name,
            output_type,
            argument_definitions,
            description,
            directives,
            method,
            deprecation_reason,
            deprecated,
        )
    }

    /// The number of keyword arguments the resolver receives.
    pub fn resolver_arg_count(&self) -> (r: usize)
        requires
            self.argument_definitions@.len() + self.extra_resolver_args@.len() <= usize::MAX,
        ensures
            r == self.argument_definitions@.len() + self.extra_resolver_args@.len(),
    {
        self.argument_definitions.len() + self.extra_resolver_args.len()
    }

    pub fn is_deprecated(&self) -> (r: bool)
        ensures
            r == self.deprecation_reason is Some,
    {
        self.deprecation_reason.is_some()
    }
}

/// An object type.
#[derive(Debug)]
pub struct ObjectTypeDefinition {
    pub name: String,
    pub description: Option<String>,
    pub field_definitions: Vec<FieldDefinition>,
    /// The interfaces the type implements, by index in the schema.
    pub interface_implementations: Vec<usize>,
    pub directives: Vec<Directive>,
    /// The Ruby class of the type's definition.
    pub ruby_class_name: String,
    pub is_builtin: bool,
}

/// An interface type.
#[derive(Debug)]
pub struct InterfaceTypeDefinition {
    pub name: String,
    pub description: Option<String>,
    pub field_definitions: Vec<FieldDefinition>,
    pub interface_implementations: Vec<usize>,
    pub directives: Vec<Directive>,
    pub ruby_class_name: String,
}

/// A union type.
#[derive(Debug)]
pub struct UnionTypeDefinition {
    pub name: String,
    pub description: Option<String>,
    /// The member object types, by index in the schema.
    pub member_types: Vec<usize>,
    pub directives: Vec<Directive>,
    pub ruby_class_name: String,
}

/// The Ruby module under which the built-in object types are defined.
pub open spec fn builtin_object_types_module() -> Seq<char> {
    "Bluejay::Builtin::ObjectTypes"@
}

/// The index of the first field of this name.
pub open spec fn field_index_from(fields: Seq<FieldDefinition>, name: Seq<char>, k: int) -> Option<int>
    decreases fields.len() - k,
{
    if k < 0 || k >= fields.len() {
        None
    } else if fields[k].name@ == name {
        Some(k)
    } else {
        field_index_from(fields, name, k + 1)
    }
}

/// The index of the first field of a list with this name.
pub fn find_field(fields: &Vec<FieldDefinition>, name: &str) -> (r: Option<usize>)
    ensures
        match r {
            None => field_index_from(fields@, name@, 0) is None,
            Some(k) => k < fields@.len() && field_index_from(fields@, name@, 0) == Some(k as int),
        },
{
    let mut k: usize = 0;
    while k < fields.len()
        invariant
            k <= fields.len(),
            field_index_from(fields@, name@, 0) == field_index_from(fields@, name@, k as int),
        decreases fields.len() - k,
    {
        if str_eq(fields[k].name.as_str(), name) {
            return Some(k);
        }
        k = k + 1;
    }
    None
}

impl ObjectTypeDefinition {
    /// An object type; it is built in where its Ruby class is defined under
    /// `Bluejay::Builtin::ObjectTypes`.
    pub fn new(
        name: String,
        field_definitions: Vec<FieldDefinition>,
        interface_implementations: Vec<usize>,
        description: Option<String>,
        directives: Vec<Directive>,
        ruby_class_name: String,
    ) -> (r: ObjectTypeDefinition)
        ensures
            r.name == name,
            r.field_definitions == field_definitions,
            r.interface_implementations == interface_implementations,
            r.description == description,
            r.directives == directives,
            r.ruby_class_name == ruby_class_name,
            r.is_builtin == spec_starts_with(ruby_class_name@, builtin_object_types_module()),
    {
        let is_builtin = starts_with(ruby_class_name.as_str(), "Bluejay::Builtin::ObjectTypes");
        proof {
            reveal_strlit("Bluejay::Builtin::ObjectTypes");
        }
        ObjectTypeDefinition {
            name,
            description,
            field_definitions,
            interface_implementations,
            directives,
            ruby_class_name,
            is_builtin,
        }
    }

    /// The index of the type's first field with this name.
    pub fn field_definition(&self, name: &str) -> (r: Option<usize>)
        ensures
            match r {
                None => field_index_from(self.field_definitions@, name@, 0) is None,
                Some(k) => k < self.field_definitions@.len() && field_index_from(
                    self.field_definitions@,
                    name@,
                    0,
                ) == Some(k as int),
            },
    {
        find_field(&self.field_definitions, name)
    }
}

/// A schema: its definitions and its root types.
#[derive(Debug)]
pub struct SchemaDefinition {
    pub input: InputSchema,
    pub objects: Vec<ObjectTypeDefinition>,
    pub interfaces: Vec<InterfaceTypeDefinition>,
    pub unions: Vec<UnionTypeDefinition>,
    pub directives: Vec<DirectiveDefinition>,
    /// The query root, by index among the objects.
    pub query: usize,
    /// The mutation root, where there is one.
    pub mutation: Option<usize>,
    /// The Ruby class of the schema.
    pub ruby_class_name: String,
}

pub open spec fn base_output_wf(s: SchemaDefinition, base: BaseOutputType) -> bool {
    match base {
        BaseOutputType::BuiltinScalar(_) => true,
        BaseOutputType::CustomScalar(i) => i < s.input.custom_scalars@.len(),
        BaseOutputType::Enum(i) => i < s.input.enums@.len(),
        BaseOutputType::Object(i) => i < s.objects@.len(),
        BaseOutputType::Interface(i) => i < s.interfaces@.len(),
        BaseOutputType::Union(i) => i < s.unions@.len(),
    }
}

/// Every definition that an output type names is in the schema.
pub open spec fn output_type_wf(s: SchemaDefinition, ty: OutputType) -> bool
    decreases ty,
{
    match ty {
        OutputType::Base(base, _) => base_output_wf(s, base),
        OutputType::List(inner, _) => output_type_wf(s, *inner),
    }
}

pub open spec fn spec_output_is_required(ty: OutputType) -> bool {
    match ty {
        OutputType::Base(_, r) => r,
        OutputType::List(_, r) => r,
    }
}

/// The GraphQL name of a named output type.
pub open spec fn spec_base_output_name(s: SchemaDefinition, base: BaseOutputType) -> Seq<char> {
    match base {
        BaseOutputType::BuiltinScalar(b) => spec_scalar_name(b),
        BaseOutputType::CustomScalar(i) => s.input.custom_scalars@[i as int].name@,
        BaseOutputType::Enum(i) => s.input.enums@[i as int].name@,
        BaseOutputType::Object(i) => s.objects@[i as int].name@,
        BaseOutputType::Interface(i) => s.interfaces@[i as int].name@,
        BaseOutputType::Union(i) => s.unions@[i as int].name@,
    }
}

/// The kind that introspection reports for an output type.
/// The type that introspection reports an output type to wrap.
pub open spec fn spec_output_of_type(ty: OutputType) -> Option<OutputType> {
    match ty {
        OutputType::Base(base, r) => if r {
            Some(OutputType::Base(base, false))
        } else {
            None
        },
        OutputType::List(inner, r) => if r {
            Some(OutputType::List(inner, false))
        } else {
            Some(*inner)
        },
    }
}

pub open spec fn spec_output_kind(ty: OutputType) -> TypeKind {
    match ty {
        OutputType::Base(base, r) => if r {
            TypeKind::NonNull
        } else {
            match base {
                BaseOutputType::BuiltinScalar(_) | BaseOutputType::CustomScalar(_) => TypeKind::Scalar,
                BaseOutputType::Enum(_) => TypeKind::Enum,
                BaseOutputType::Interface(_) => TypeKind::Interface,
                BaseOutputType::Object(_) => TypeKind::Object,
                BaseOutputType::Union(_) => TypeKind::Union,
            }
        },
        OutputType::List(_, r) => if r {
            TypeKind::NonNull
        } else {
            TypeKind::List
        },
    }
}

/// Texts joined with a separator between each two.
pub open spec fn spec_join(items: Seq<Seq<char>>, sep: Seq<char>) -> Seq<char>
    decreases items.len(),
{
    if items.len() == 0 {
        Seq::empty()
    } else if items.len() == 1 {
        items[0]
    } else {
        spec_join(items.drop_last(), sep) + sep + items.last()
    }
}

/// Calls `itertools::join` on a list of strings, which writes the first
/// string and then, for each other string, the separator and the string.
#[verifier::external_body]
pub(crate) fn join_strings(items: &Vec<String>, sep: &str) -> (r: String)
    ensures
        r@ == spec_join(strings_view(items@), sep@),
{
    itertools::join(items.iter(), sep)
}

/// The Sorbet type of a union's values: any of its members' interfaces.
pub open spec fn spec_union_sorbet_type(s: SchemaDefinition, u: int) -> Seq<char> {
    let members = s.unions@[u].member_types@;
    "T.any("@ + spec_join(
        Seq::new(members.len(), |k: int| s.objects@[members[k] as int].ruby_class_name@),
        ", "@,
    ) + ")"@
}

/// The Sorbet type of values of a named output type.
pub open spec fn spec_base_output_sorbet_type(s: SchemaDefinition, base: BaseOutputType) -> Seq<char> {
    match base {
        BaseOutputType::BuiltinScalar(b) => spec_sorbet_type_fully_qualified_name(b),
        BaseOutputType::CustomScalar(i) => s.input.custom_scalars@[i as int].internal_representation_sorbet_type_name@,
        BaseOutputType::Enum(_) => "String"@,
        BaseOutputType::Interface(i) => s.interfaces@[i as int].ruby_class_name@ + "::Interface"@,
        BaseOutputType::Object(i) => s.objects@[i as int].ruby_class_name@ + "::Interface"@,
        BaseOutputType::Union(i) => spec_union_sorbet_type(s, i as int),
    }
}

/// The Sorbet type of values of an output type: nilable unless required.
pub open spec fn spec_output_sorbet_type(s: SchemaDefinition, ty: OutputType) -> Seq<char>
    decreases ty,
{
    let inner = match ty {
        OutputType::List(inner, _) => "T::Array["@ + spec_output_sorbet_type(s, *inner) + "]"@,
        OutputType::Base(base, _) => spec_base_output_sorbet_type(s, base),
    };
    if spec_output_is_required(ty) {
        inner
    } else {
        "T.nilable("@ + inner + ")"@
    }
}

/// Whether the object type implements the interface: one of its interface
/// implementations names an interface of the same name.
pub open spec fn spec_implements_interface(s: SchemaDefinition, o: int, i: int) -> bool {
    exists|k: int|
        0 <= k < s.objects@[o].interface_implementations@.len() && #[trigger] s.interfaces@[s.objects@[o].interface_implementations@[k] as int].name@
            == s.interfaces@[i].name@
}

/// Whether the union has a member of the object type's name.
pub open spec fn spec_contains_type(s: SchemaDefinition, u: int, o: int) -> bool {
    exists|k: int|
        0 <= k < s.unions@[u].member_types@.len() && #[trigger] s.objects@[s.unions@[u].member_types@[k] as int].name@
            == s.objects@[o].name@
}

/// The object `o`, once for each of its first `k` interface implementations
/// that names an interface called `name`.
pub open spec fn spec_implementations_named(s: SchemaDefinition, o: int, name: Seq<char>, k: int) -> Seq<usize>
    decreases k,
{
    if k <= 0 {
        Seq::empty()
    } else {
        let prev = spec_implementations_named(s, o, name, k - 1);
        if s.interfaces@[s.objects@[o].interface_implementations@[k - 1] as int].name@ == name {
            prev.push(o as usize)
        } else {
            prev
        }
    }
}

/// The implementors of the interface called `name` among the first `n`
/// objects, in the objects' order, each as often as it names the interface.
pub open spec fn spec_implementors(s: SchemaDefinition, name: Seq<char>, n: int) -> Seq<usize>
    decreases n,
{
    if n <= 0 {
        Seq::empty()
    } else {
        spec_implementors(s, name, n - 1) + spec_implementations_named(
            s,
            n - 1,
            name,
            s.objects@[n - 1].interface_implementations@.len() as int,
        )
    }
}

/// Every index that the schema's definitions hold is in range.
pub open spec fn schema_refs_wf(s: SchemaDefinition) -> bool {
    &&& s.query < s.objects@.len()
    &&& (s.mutation matches Some(m) ==> m < s.objects@.len())
    &&& forall|o: int, k: int|
        0 <= o < s.objects@.len() && 0 <= k < s.objects@[o].interface_implementations@.len() ==> (
        #[trigger] s.objects@[o].interface_implementations@[k]) < s.interfaces@.len()
    &&& forall|u: int, k: int|
        0 <= u < s.unions@.len() && 0 <= k < s.unions@[u].member_types@.len() ==> (
        #[trigger] s.unions@[u].member_types@[k]) < s.objects@.len()
    &&& forall|o: int, f: int|
        0 <= o < s.objects@.len() && 0 <= f < s.objects@[o].field_definitions@.len() ==> output_type_wf(
            s,
            #[trigger] s.objects@[o].field_definitions@[f].output_type,
        )
}

impl SchemaDefinition {
    /// The GraphQL name of a named output type.
    pub fn base_output_name(&self, base: BaseOutputType) -> (r: &str)
        requires
            base_output_wf(*self, base),
        ensures
            r@ == spec_base_output_name(*self, base),
    {
        match base {
            BaseOutputType::BuiltinScalar(b) => b.name(),
            BaseOutputType::CustomScalar(i) => self.input.custom_scalars[i].name.as_str(),
            BaseOutputType::Enum(i) => self.input.enums[i].name.as_str(),
            BaseOutputType::Object(i) => self.objects[i].name.as_str(),
            BaseOutputType::Interface(i) => self.interfaces[i].name.as_str(),
            BaseOutputType::Union(i) => self.unions[i].name.as_str(),
        }
    }

    /// Whether the object type `o` implements the interface `i`.
    pub fn implements_interface(&self, o: usize, i: usize) -> (r: bool)
        requires
            schema_refs_wf(*self),
            o < self.objects@.len(),
            i < self.interfaces@.len(),
        ensures
            r == spec_implements_interface(*self, o as int, i as int),
    {
        let ob = &self.objects[o];
        let mut k: usize = 0;
        while k < ob.interface_implementations.len()
            invariant
                schema_refs_wf(*self),
                o < self.objects@.len(),
                i < self.interfaces@.len(),
                *ob == self.objects@[o as int],
                k <= ob.interface_implementations@.len(),
                forall|j: int|
                    0 <= j < k ==> #[trigger] self.interfaces@[ob.interface_implementations@[j] as int].name@
                        != self.interfaces@[i as int].name@,
            decreases ob.interface_implementations@.len() - k,
        {
            let ii = ob.interface_implementations[k];
            if str_eq(self.interfaces[ii].name.as_str(), self.interfaces[i].name.as_str()) {
                return true;
            }
            k = k + 1;
        }
        false
    }

    /// The object types that implement the interface `i`, in the order of
    /// the schema's objects.
    pub fn interface_implementors(&self, i: usize) -> (r: Vec<usize>)
        requires
            schema_refs_wf(*self),
            i < self.interfaces@.len(),
        ensures
            r@ == spec_implementors(*self, self.interfaces@[i as int].name@, self.objects@.len() as int),
    {
        let ghost name = self.interfaces@[i as int].name@;
        let mut r: Vec<usize> = Vec::new();
        let mut o: usize = 0;
        while o < self.objects.len()
            invariant
                schema_refs_wf(*self),
                i < self.interfaces@.len(),
                name == self.interfaces@[i as int].name@,
                o <= self.objects@.len(),
                r@ == spec_implementors(*self, name, o as int),
            decreases self.objects@.len() - o,
        {
            let ob = &self.objects[o];
            let ghost before = r@;
            let mut k: usize = 0;
            while k < ob.interface_implementations.len()
                invariant
                    schema_refs_wf(*self),
                    i < self.interfaces@.len(),
                    name == self.interfaces@[i as int].name@,
                    o < self.objects@.len(),
                    *ob == self.objects@[o as int],
                    k <= ob.interface_implementations@.len(),
                    r@ == before + spec_implementations_named(*self, o as int, name, k as int),
                decreases ob.interface_implementations@.len() - k,
            {
                let ii = ob.interface_implementations[k];
                proof {
                    assert(ii < self.interfaces@.len());
                }
                if str_eq(self.interfaces[ii].name.as_str(), self.interfaces[i].name.as_str()) {
                    r.push(o);
                    proof {
                        assert(r@ =~= before + spec_implementations_named(*self, o as int, name, k + 1));
                    }
                }
                k = k + 1;
            }
            o = o + 1;
        }
        r
    }

    /// Whether the union `u` has the object type `o` as a member.
    pub fn contains_type(&self, u: usize, o: usize) -> (r: bool)
        requires
            schema_refs_wf(*self),
            u < self.unions@.len(),
            o < self.objects@.len(),
        ensures
            r == spec_contains_type(*self, u as int, o as int),
    {
        let un = &self.unions[u];
        let mut k: usize = 0;
        while k < un.member_types.len()
            invariant
                schema_refs_wf(*self),
                u < self.unions@.len(),
                o < self.objects@.len(),
                *un == self.unions@[u as int],
                k <= un.member_types@.len(),
                forall|j: int|
                    0 <= j < k ==> #[trigger] self.objects@[un.member_types@[j] as int].name@
                        != self.objects@[o as int].name@,
            decreases un.member_types@.len() - k,
        {
            let m = un.member_types[k];
            if str_eq(self.objects[m].name.as_str(), self.objects[o].name.as_str()) {
                return true;
            }
            k = k + 1;
        }
        false
    }

    /// The Sorbet type of the values of the union `u`.
    pub fn union_sorbet_type(&self, u: usize) -> (r: String)
        requires
            schema_refs_wf(*self),
            u < self.unions@.len(),
        ensures
            r@ == spec_union_sorbet_type(*self, u as int),
    {
        let un = &self.unions[u];
        let mut names: Vec<String> = Vec::new();
        let mut k: usize = 0;
        while k < un.member_types.len()
            invariant
                schema_refs_wf(*self),
                u < self.unions@.len(),
                *un == self.unions@[u as int],
                k <= un.member_types@.len(),
                names@.len() == k,
                forall|j: int|
                    0 <= j < k ==> #[trigger] names@[j]@ == self.objects@[un.member_types@[j] as int].ruby_class_name@,
            decreases un.member_types@.len() - k,
        {
            let m = un.member_types[k];
            names.push(self.objects[m].ruby_class_name.clone());
            k = k + 1;
        }
        let joined = join_strings(&names, ", ");
        proof {
            let members = self.unions@[u as int].member_types@;
            assert(strings_view(names@) =~= Seq::new(
                members.len(),
                |j: int| self.objects@[members[j] as int].ruby_class_name@,
            ));
        }
        cat3("T.any(", joined.as_str(), ")")
    }

    /// The Sorbet type of the values of a named output type.
    pub fn base_output_sorbet_type(&self, base: BaseOutputType) -> (r: String)
        requires
            schema_refs_wf(*self),
            base_output_wf(*self, base),
        ensures
            r@ == spec_base_output_sorbet_type(*self, base),
    {
        match base {
            BaseOutputType::BuiltinScalar(b) => String::from_str(b.sorbet_type_fully_qualified_name()),
            BaseOutputType::CustomScalar(i) => self.input.custom_scalars[i].internal_representation_sorbet_type_name.clone(),
            BaseOutputType::Enum(_) => String::from_str("String"),
            BaseOutputType::Interface(i) => cat2(self.interfaces[i].ruby_class_name.as_str(), "::Interface"),
            BaseOutputType::Object(i) => cat2(self.objects[i].ruby_class_name.as_str(), "::Interface"),
            BaseOutputType::Union(i) => self.union_sorbet_type(i),
        }
    }

    /// The Sorbet type of the values of an output type.
    pub fn output_sorbet_type(&self, ty: &OutputType) -> (r: String)
        requires
            schema_refs_wf(*self),
            output_type_wf(*self, *ty),
        ensures
            r@ == spec_output_sorbet_type(*self, *ty),
        decreases ty,
    {
        let (inner, required) = match ty {
            OutputType::List(inner, r) => {
                let s = self.output_sorbet_type(inner);
                (cat3("T::Array[", s.as_str(), "]"), *r)
            },
            OutputType::Base(base, r) => (self.base_output_sorbet_type(*base), *r),
        };
        if required {
            inner
        } else {
            cat3("T.nilable(", inner.as_str(), ")")
        }
    }
}

impl OutputType {
    /// A copy of the type.
    pub fn duplicate(&self) -> (r: OutputType)
        ensures
            r == *self,
        decreases self,
    {
        match self {
            OutputType::Base(b, r) => OutputType::Base(*b, *r),
            OutputType::List(inner, r) => OutputType::List(Box::new(inner.duplicate()), *r),
        }
    }

    /// The element type of a list type; a named type is refused.
    pub fn unwrap_list(&self) -> (r: Result<OutputType, String>)
        ensures
            match *self {
                OutputType::List(inner, _) => r == Ok::<OutputType, String>(*inner),
                OutputType::Base(_, _) => r is Err && r->Err_0@ == "Tried to unwrap a non-list OutputType"@,
            },
    {
        match self {
            OutputType::List(inner, _) => Ok(inner.duplicate()),
            OutputType::Base(_, _) => {
                proof {
                    reveal_strlit("Tried to unwrap a non-list OutputType");
                }
                Err(String::from_str("Tried to unwrap a non-list OutputType"))
            },
        }
    }

    pub fn is_required(&self) -> (r: bool)
        ensures
            r == spec_output_is_required(*self),
    {
        match self {
            OutputType::Base(_, r) => *r,
            OutputType::List(_, r) => *r,
        }
    }

    /// The type that introspection reports this type to wrap: the nullable
    /// form of a required type, the element type of a nullable list.
    pub fn of_type(&self) -> (r: Option<OutputType>)
        ensures
            r == spec_output_of_type(*self),
    {
        match self {
            OutputType::Base(base, r) => if *r {
                Some(OutputType::Base(*base, false))
            } else {
                None
            },
            OutputType::List(inner, r) => if *r {
                Some(OutputType::List(Box::new(inner.duplicate()), false))
            } else {
                Some(inner.duplicate())
            },
        }
    }

    /// The kind that introspection reports for the type.
    pub fn kind(&self) -> (r: TypeKind)
        ensures
            r == spec_output_kind(*self),
    {
        match self {
            OutputType::Base(base, r) => if *r {
                TypeKind::NonNull
            } else {
                match base {
                    BaseOutputType::BuiltinScalar(_) | BaseOutputType::CustomScalar(_) => TypeKind::Scalar,
                    BaseOutputType::Enum(_) => TypeKind::Enum,
                    BaseOutputType::Interface(_) => TypeKind::Interface,
                    BaseOutputType::Object(_) => TypeKind::Object,
                    BaseOutputType::Union(_) => TypeKind::Union,
                }
            },
            OutputType::List(_, r) => if *r {
                TypeKind::NonNull
            } else {
                TypeKind::List
            },
        }
    }
}

/// A type definition of a schema, found by its name.
#[derive(Clone, Copy, Debug, PartialEq, Eq, Structural)]
pub enum TypeDefinitionRef {
    BuiltinScalar(BuiltinScalar),
    CustomScalar(usize),
    Enum(usize),
    InputObject(usize),
    Object(usize),
    Interface(usize),
    Union(usize),
}

/// The first index below `len`, from `k` on, whose name is `name`.
pub open spec fn first_named(len: nat, names: spec_fn(int) -> Seq<char>, name: Seq<char>, k: int) -> Option<int>
    decreases len - k,
{
    if k < 0 || k >= len {
        None
    } else if names(k) == name {
        Some(k)
    } else {
        first_named(len, names, name, k + 1)
    }
}

/// The built-in scalar of this name.
pub open spec fn spec_builtin_scalar_named(name: Seq<char>) -> Option<BuiltinScalar> {
    if name == "Int"@ {
        Some(BuiltinScalar::Int)
    } else if name == "Float"@ {
        Some(BuiltinScalar::Float)
    } else if name == "String"@ {
        Some(BuiltinScalar::String)
    } else if name == "Boolean"@ {
        Some(BuiltinScalar::Boolean)
    } else if name == "ID"@ {
        Some(BuiltinScalar::ID)
    } else {
        None
    }
}

pub open spec fn custom_scalar_names(s: SchemaDefinition) -> spec_fn(int) -> Seq<char> {
    |k: int| s.input.custom_scalars@[k].name@
}

pub open spec fn enum_names(s: SchemaDefinition) -> spec_fn(int) -> Seq<char> {
    |k: int| s.input.enums@[k].name@
}

pub open spec fn input_object_names(s: SchemaDefinition) -> spec_fn(int) -> Seq<char> {
    |k: int| s.input.input_objects@[k].name@
}

pub open spec fn object_names(s: SchemaDefinition) -> spec_fn(int) -> Seq<char> {
    |k: int| s.objects@[k].name@
}

pub open spec fn interface_names(s: SchemaDefinition) -> spec_fn(int) -> Seq<char> {
    |k: int| s.interfaces@[k].name@
}

pub open spec fn union_names(s: SchemaDefinition) -> spec_fn(int) -> Seq<char> {
    |k: int| s.unions@[k].name@
}

/// The type definition of a schema with this name: built-in scalars first,
/// then custom scalars, enums, input objects, objects, interfaces and
/// unions, each searched in order.
pub open spec fn spec_type_definition(s: SchemaDefinition, name: Seq<char>) -> Option<TypeDefinitionRef> {
    if let Some(b) = spec_builtin_scalar_named(name) {
        Some(TypeDefinitionRef::BuiltinScalar(b))
    } else if let Some(k) = first_named(s.input.custom_scalars@.len(), custom_scalar_names(s), name, 0) {
        Some(TypeDefinitionRef::CustomScalar(k as usize))
    } else if let Some(k) = first_named(s.input.enums@.len(), enum_names(s), name, 0) {
        Some(TypeDefinitionRef::Enum(k as usize))
    } else if let Some(k) = first_named(s.input.input_objects@.len(), input_object_names(s), name, 0) {
        Some(TypeDefinitionRef::InputObject(k as usize))
    } else if let Some(k) = first_named(s.objects@.len(), object_names(s), name, 0) {
        Some(TypeDefinitionRef::Object(k as usize))
    } else if let Some(k) = first_named(s.interfaces@.len(), interface_names(s), name, 0) {
        Some(TypeDefinitionRef::Interface(k as usize))
    } else if let Some(k) = first_named(s.unions@.len(), union_names(s), name, 0) {
        Some(TypeDefinitionRef::Union(k as usize))
    } else {
        None
    }
}

/// The built-in scalar of this name.
pub fn builtin_scalar_named(name: &str) -> (r: Option<BuiltinScalar>)
    ensures
        r == spec_builtin_scalar_named(name@),
{
    proof {
        reveal_strlit("Int");
        reveal_strlit("Float");
        reveal_strlit("String");
        reveal_strlit("Boolean");
        reveal_strlit("ID");
    }
    if str_eq(name, "Int") {
        Some(BuiltinScalar::Int)
    } else if str_eq(name, "Float") {
        Some(BuiltinScalar::Float)
    } else if str_eq(name, "String") {
        Some(BuiltinScalar::String)
    } else if str_eq(name, "Boolean") {
        Some(BuiltinScalar::Boolean)
    } else if str_eq(name, "ID") {
        Some(BuiltinScalar::ID)
    } else {
        None
    }
}

impl SchemaDefinition {
    fn find_in_custom_scalars(&self, name: &str) -> (r: Option<usize>)
        ensures
            match r {
                Some(k) => first_named(self.input.custom_scalars@.len(), custom_scalar_names(*self), name@, 0) == Some(k as int),
                None => first_named(self.input.custom_scalars@.len(), custom_scalar_names(*self), name@, 0) is None,
            },
    {
        let ghost s = *self;
        let mut k: usize = 0;
        while k < self.input.custom_scalars.len()
            invariant
                s == *self,
                k <= self.input.custom_scalars@.len(),
                first_named(s.input.custom_scalars@.len(), custom_scalar_names(s), name@, 0) == first_named(
                    s.input.custom_scalars@.len(),
                    custom_scalar_names(s),
                    name@,
                    k as int,
                ),
            decreases self.input.custom_scalars@.len() - k,
        {
            if str_eq(self.input.custom_scalars[k].name.as_str(), name) {
                return Some(k);
            }
            k = k + 1;
        }
        None
    }

    fn find_in_enums(&self, name: &str) -> (r: Option<usize>)
        ensures
            match r {
                Some(k) => first_named(self.input.enums@.len(), enum_names(*self), name@, 0) == Some(k as int),
                None => first_named(self.input.enums@.len(), enum_names(*self), name@, 0) is None,
            },
    {
        let ghost s = *self;
        let mut k: usize = 0;
        while k < self.input.enums.len()
            invariant
                s == *self,
                k <= self.input.enums@.len(),
                first_named(s.input.enums@.len(), enum_names(s), name@, 0) == first_named(
                    s.input.enums@.len(),
                    enum_names(s),
                    name@,
                    k as int,
                ),
            decreases self.input.enums@.len() - k,
        {
            if str_eq(self.input.enums[k].name.as_str(), name) {
                return Some(k);
            }
            k = k + 1;
        }
        None
    }

    fn find_in_input_objects(&self, name: &str) -> (r: Option<usize>)
        ensures
            match r {
                Some(k) => first_named(self.input.input_objects@.len(), input_object_names(*self), name@, 0) == Some(k as int),
                None => first_named(self.input.input_objects@.len(), input_object_names(*self), name@, 0) is None,
            },
    {
        let ghost s = *self;
        let mut k: usize = 0;
        while k < self.input.input_objects.len()
            invariant
                s == *self,
                k <= self.input.input_objects@.len(),
                first_named(s.input.input_objects@.len(), input_object_names(s), name@, 0) == first_named(
                    s.input.input_objects@.len(),
                    input_object_names(s),
                    name@,
                    k as int,
                ),
            decreases self.input.input_objects@.len() - k,
        {
            if str_eq(self.input.input_objects[k].name.as_str(), name) {
                return Some(k);
            }
            k = k + 1;
        }
        None
    }

    fn find_in_objects(&self, name: &str) -> (r: Option<usize>)
        ensures
            match r {
                Some(k) => first_named(self.objects@.len(), object_names(*self), name@, 0) == Some(k as int),
                None => first_named(self.objects@.len(), object_names(*self), name@, 0) is None,
            },
    {
        let ghost s = *self;
        let mut k: usize = 0;
        while k < self.objects.len()
            invariant
                s == *self,
                k <= self.objects@.len(),
                first_named(s.objects@.len(), object_names(s), name@, 0) == first_named(
                    s.objects@.len(),
                    object_names(s),
                    name@,
                    k as int,
                ),
            decreases self.objects@.len() - k,
        {
            if str_eq(self.objects[k].name.as_str(), name) {
                return Some(k);
            }
            k = k + 1;
        }
        None
    }

    fn find_in_interfaces(&self, name: &str) -> (r: Option<usize>)
        ensures
            match r {
                Some(k) => first_named(self.interfaces@.len(), interface_names(*self), name@, 0) == Some(k as int),
                None => first_named(self.interfaces@.len(), interface_names(*self), name@, 0) is None,
            },
    {
        let ghost s = *self;
        let mut k: usize = 0;
        while k < self.interfaces.len()
            invariant
                s == *self,
                k <= self.interfaces@.len(),
                first_named(s.interfaces@.len(), interface_names(s), name@, 0) == first_named(
                    s.interfaces@.len(),
                    interface_names(s),
                    name@,
                    k as int,
                ),
            decreases self.interfaces@.len() - k,
        {
            if str_eq(self.interfaces[k].name.as_str(), name) {
                return Some(k);
            }
            k = k + 1;
        }
        None
    }

    fn find_in_unions(&self, name: &str) -> (r: Option<usize>)
        ensures
            match r {
                Some(k) => first_named(self.unions@.len(), union_names(*self), name@, 0) == Some(k as int),
                None => first_named(self.unions@.len(), union_names(*self), name@, 0) is None,
            },
    {
        let ghost s = *self;
        let mut k: usize = 0;
        while k < self.unions.len()
            invariant
                s == *self,
                k <= self.unions@.len(),
                first_named(s.unions@.len(), union_names(s), name@, 0) == first_named(
                    s.unions@.len(),
                    union_names(s),
                    name@,
                    k as int,
                ),
            decreases self.unions@.len() - k,
        {
            if str_eq(self.unions[k].name.as_str(), name) {
                return Some(k);
            }
            k = k + 1;
        }
        None
    }

    /// The type definition of this name.
    pub fn type_definition(&self, name: &str) -> (r: Option<TypeDefinitionRef>)
        ensures
            r == spec_type_definition(*self, name@),
    {
        if let Some(b) = builtin_scalar_named(name) {
            Some(TypeDefinitionRef::BuiltinScalar(b))
        } else if let Some(k) = self.find_in_custom_scalars(name) {
            Some(TypeDefinitionRef::CustomScalar(k))
        } else if let Some(k) = self.find_in_enums(name) {
            Some(TypeDefinitionRef::Enum(k))
        } else if let Some(k) = self.find_in_input_objects(name) {
            Some(TypeDefinitionRef::InputObject(k))
        } else if let Some(k) = self.find_in_objects(name) {
            Some(TypeDefinitionRef::Object(k))
        } else if let Some(k) = self.find_in_interfaces(name) {
            Some(TypeDefinitionRef::Interface(k))
        } else if let Some(k) = self.find_in_unions(name) {
            Some(TypeDefinitionRef::Union(k))
        } else {
            None
        }
    }
}

} // verus!
