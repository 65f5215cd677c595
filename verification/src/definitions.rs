//! Building the definitions of a schema from what Ruby code declares:
//! directive definitions, enum values, arguments and input fields, custom
//! scalars.
use vstd::prelude::*;
use convert_case::{Case, Casing};

use crate::input_schema::{
    CoercionMethodSignature, CustomScalarTypeDefinition, Directive, EnumValueDefinition, InputType,
    InputValueDefinition,
};
use crate::ruby_value::{RubyData, RubyValue, args_view};
use crate::text::{spec_starts_with, starts_with};

verus! {

/// What `convert_case` makes of a text converted to snake case.
pub uninterp spec fn snake_case(text: Seq<char>) -> Seq<char>;

/// Calls `convert_case::Casing::to_case` with `Case::Snake`; the contract
/// names its result and says nothing more of it.
#[verifier::external_body]
pub(crate) fn to_snake_case(text: &str) -> (r: String)
    ensures
        r@ == snake_case(text@),
{
    text.to_case(Case::Snake)
}

/// The Ruby name of a definition: the one given, else its GraphQL name in
/// snake case.
pub fn ruby_name_or_snake_case(name: &str, given: &Option<String>) -> (r: String)
    ensures
        r@ == (match given {
            Some(n) => n@,
            None => snake_case(name@),
        }),
{
    match given {
        Some(n) => n.clone(),
        None => to_snake_case(name),
    }
}

/// A directive definition: a directive that documents may use, with its
/// arguments and the locations it may stand at.
#[derive(Debug)]
pub struct DirectiveDefinition {
    pub name: String,
    pub description: Option<String>,
    pub arguments_definition: Vec<InputValueDefinition>,
    pub is_repeatable: bool,
    /// The names of the locations the directive may be used at.
    pub locations: Vec<String>,
    /// The Ruby class whose instances stand for uses of the directive.
    pub ruby_class_name: String,
    pub is_builtin: bool,
}

/// The Ruby module under which the built-in directives are defined.
pub open spec fn builtin_directives_module() -> Seq<char> {
    "Bluejay::Builtin::Directives"@
}

impl DirectiveDefinition {
    /// A directive definition; it is built in where its Ruby class is
    /// defined under `Bluejay::Builtin::Directives`.
    pub fn new(
        name: String,
        arguments_definition: Vec<InputValueDefinition>,
        description: Option<String>,
        is_repeatable: bool,
        locations: Vec<String>,
        ruby_class_name: String,
    ) -> (r: DirectiveDefinition)
        ensures
            r.name == name,
            r.arguments_definition == arguments_definition,
            r.description == description,
            r.is_repeatable == is_repeatable,
            r.locations == locations,
            r.ruby_class_name == ruby_class_name,
            r.is_builtin == spec_starts_with(ruby_class_name@, builtin_directives_module()),
    {
        let is_builtin = starts_with(ruby_class_name.as_str(), "Bluejay::Builtin::Directives");
        proof {
            reveal_strlit("Bluejay::Builtin::Directives");
        }
        DirectiveDefinition {
            name,
            description,
            arguments_definition,
            is_repeatable,
            locations,
            ruby_class_name,
            is_builtin,
        }
    }
}

/// The content of a use of a directive given by its name and the name and
/// value of its single argument.
pub open spec fn spec_single_argument_directive(
    definition: DirectiveDefinition,
    value: Seq<char>,
) -> (Seq<char>, Seq<(Seq<char>, RubyData)>) {
    (definition.name@, seq![(definition.arguments_definition@[0].ruby_name@, RubyData::String(value))])
}

/// A use of the directive `definition` whose first argument is the string
/// `value`, as the `deprecated` and `specifiedBy` directives are used.
pub fn single_argument_directive(definition: &DirectiveDefinition, value: &str) -> (r: Directive)
    requires
        definition.arguments_definition@.len() > 0,
    ensures
        (r.definition_name@, args_view(r.arguments@)) == spec_single_argument_directive(*definition, value@),
{
    let mut arguments: Vec<(String, RubyValue)> = Vec::new();
    arguments.push((definition.arguments_definition[0].ruby_name.clone(), RubyValue::String(String::from_str(value))));
    proof {
        assert(args_view(arguments@) =~= seq![
            (definition.arguments_definition@[0].ruby_name@, RubyData::String(value@)),
        ]);
    }
    Directive { definition_name: definition.name.clone(), arguments }
}

/// The directives of a definition: those given, then a use of
/// `definition` with `value` where there is one.
pub open spec fn spec_directives_with(
    given: Seq<Directive>,
    definition: DirectiveDefinition,
    value: Option<String>,
) -> Seq<(Seq<char>, Seq<(Seq<char>, RubyData)>)> {
    let views = given.map_values(|d: Directive| (d.definition_name@, args_view(d.arguments@)));
    match value {
        None => views,
        Some(v) => views.push(spec_single_argument_directive(definition, v@)),
    }
}

/// The contents of a list of directives.
pub open spec fn directives_view(d: Seq<Directive>) -> Seq<(Seq<char>, Seq<(Seq<char>, RubyData)>)> {
    d.map_values(|d: Directive| (d.definition_name@, args_view(d.arguments@)))
}

/// Appends a use of `definition` with `value`, where there is a value.
pub fn push_single_argument_directive(
    directives: &mut Vec<Directive>,
    definition: &DirectiveDefinition,
    value: &Option<String>,
)
    requires
        value is Some ==> definition.arguments_definition@.len() > 0,
    ensures
        directives_view(final(directives)@) == spec_directives_with(old(directives)@, *definition, *value),
{
    match value {
        Some(v) => {
            let d = single_argument_directive(definition, v.as_str());
            let ghost before = directives@;
            directives.push(d);
            proof {
                assert(directives_view(directives@) =~= directives_view(before).push(
                    spec_single_argument_directive(*definition, v@),
                ));
            }
        },
        None => {
            proof {
                assert(directives_view(directives@) =~= spec_directives_with(directives@, *definition, *value));
            }
        },
    }
}

impl EnumValueDefinition {
    /// An enum value; a deprecation reason adds a use of the `deprecated`
    /// directive with that reason.
    pub fn new(
        name: String,
        description: Option<String>,
        directives: Vec<Directive>,
        deprecation_reason: Option<String>,
        deprecated: &DirectiveDefinition,
    ) -> (r: EnumValueDefinition)
        requires
            deprecation_reason is Some ==> deprecated.arguments_definition@.len() > 0,
        ensures
            r.name == name,
            r.description == description,
            r.deprecation_reason == deprecation_reason,
            directives_view(r.directives@) == spec_directives_with(directives@, *deprecated, deprecation_reason),
    {
        let mut directives = directives;
        push_single_argument_directive(&mut directives, deprecated, &deprecation_reason);
        EnumValueDefinition { name, description, directives, deprecation_reason }
    }

    /// Whether the value is deprecated.
    pub fn is_deprecated(&self) -> (r: bool)
        ensures
            r == self.deprecation_reason is Some,
    {
        self.deprecation_reason.is_some()
    }
}

impl InputValueDefinition {
    /// An argument or input field whose Ruby keyword is `ruby_name`; a
    /// deprecation reason adds a use of the `deprecated` directive.
    pub fn with_ruby_name(
        name: String,
        input_type: InputType,
        description: Option<String>,
        directives: Vec<Directive>,
        ruby_name: String,
        default_value: Option<RubyValue>,
        deprecation_reason: Option<String>,
        deprecated: &DirectiveDefinition,
    ) -> (r: InputValueDefinition)
        requires
            deprecation_reason is Some ==> deprecated.arguments_definition@.len() > 0,
        ensures
            r.name == name,
            r.input_type == input_type,
            r.description == description,
            r.ruby_name == ruby_name,
            r.default_value == default_value,
            r.default_inner is None,
            r.deprecation_reason == deprecation_reason,
            directives_view(r.directives@) == spec_directives_with(directives@, *deprecated, deprecation_reason),
    {
        let mut directives = directives;
        push_single_argument_directive(&mut directives, deprecated, &deprecation_reason);
        InputValueDefinition {
            name,
            description,
            input_type,
            directives,
            default_value,
            default_inner: None,
            ruby_name,
            deprecation_reason,
        }
    }

    /// An argument or input field; its Ruby keyword is `ruby_name` where one
    /// is given, its name in snake case otherwise.
    pub fn new(
        name: String,
        input_type: InputType,
        description: Option<String>,
        directives: Vec<Directive>,
        ruby_name: Option<String>,
        default_value: Option<RubyValue>,
        deprecation_reason: Option<String>,
        deprecated: &DirectiveDefinition,
    ) -> (r: InputValueDefinition)
        requires
            deprecation_reason is Some ==> deprecated.arguments_definition@.len() > 0,
        ensures
            r.name == name,
            r.input_type == input_type,
            r.description == description,
            r.ruby_name@ == (match ruby_name {
                Some(n) => n@,
                None => snake_case(name@),
            }),
            r.default_value == default_value,
            r.deprecation_reason == deprecation_reason,
            directives_view(r.directives@) == spec_directives_with(directives@, *deprecated, deprecation_reason),
    {
        let ruby_name = ruby_name_or_snake_case(name.as_str(), &ruby_name);
        InputValueDefinition::with_ruby_name(
            name,
            input_type,
            description,
            directives,
            ruby_name,
            default_value,
            deprecation_reason,
            deprecated,
        )
    }

    /// Whether a value must be given: the type is required and there is no
    /// default.
    pub fn is_required(&self) -> (r: bool)
        ensures
            r == (self.default_value is None && crate::input_schema::spec_is_required(self.input_type)),
    {
        if self.default_value.is_some() {
            false
        } else {
            self.input_type.is_required()
        }
    }
}

impl CustomScalarTypeDefinition {
    /// A custom scalar; a `specified_by_url` adds a use of the
    /// `specifiedBy` directive with that URL.
    pub fn new(
        name: String,
        description: Option<String>,
        directives: Vec<Directive>,
        specified_by_url: Option<String>,
        ruby_class_name: String,
        internal_representation_sorbet_type_name: String,
        input_coercion_method_signature: CoercionMethodSignature,
        result_coercion_method_signature: CoercionMethodSignature,
        specified_by: &DirectiveDefinition,
    ) -> (r: CustomScalarTypeDefinition)
        requires
            specified_by_url is Some ==> specified_by.arguments_definition@.len() > 0,
        ensures
            r.name == name,
            r.description == description,
            r.specified_by_url == specified_by_url,
            r.ruby_class_name == ruby_class_name,
            r.internal_representation_sorbet_type_name == internal_representation_sorbet_type_name,
            r.input_coercion_method_signature == input_coercion_method_signature,
            r.result_coercion_method_signature == result_coercion_method_signature,
            directives_view(r.directives@) == spec_directives_with(directives@, *specified_by, specified_by_url),
    {
        let mut directives = directives;
        push_single_argument_directive(&mut directives, specified_by, &specified_by_url);
        CustomScalarTypeDefinition {
            name,
            description,
            directives,
            specified_by_url,
            ruby_class_name,
            internal_representation_sorbet_type_name,
            input_coercion_method_signature,
            result_coercion_method_signature,
        }
    }
}

} // verus!
