//! The problems that validating a document against a schema finds, and the
//! messages that Ruby code receives for them.
use vstd::prelude::*;

use crate::coercion_error::strings_view;
use crate::errors::ValidationError;
use crate::output_schema::{join_strings, spec_join};
use crate::text::{cat2, cat3, cat4, cat5, decimal_string, spec_decimal};

verus! {

/// A problem that validation finds, by the names and texts its message
/// shows.
#[derive(Debug)]
pub enum ValidationProblem {
    NotLoneAnonymousOperation,
    NonUniqueOperationNames { name: String },
    SubscriptionRootNotSingleField,
    FieldDoesNotExistOnType { field: String, named_type: String },
    /// `operation_type` is the operation type as documents write it.
    OperationTypeNotDefined { operation_type: String },
    LeafFieldSelectionNotEmpty { named_type: String },
    NonLeafFieldSelectionEmpty { named_type: String },
    NonUniqueFragmentDefinitionNames { name: String },
    FragmentDefinitionTargetTypeDoesNotExist { named_type: String },
    /// `named_type` is the inline fragment's type condition, if it has one.
    InlineFragmentTargetTypeDoesNotExist { named_type: Option<String> },
    FragmentDefinitionTargetTypeNotComposite { named_type: String },
    InlineFragmentTargetTypeNotComposite { named_type: Option<String> },
    FragmentDefinitionUnused { name: String },
    FragmentSpreadTargetUndefined { name: String },
    FragmentSpreadCycle { name: String },
    FieldSelectionsDoNotMergeDifferingArguments,
    FieldSelectionsDoNotMergeDifferingNames,
    FieldSelectionsDoNotMergeIncompatibleTypes,
    FragmentSpreadIsNotPossible { name: String, parent_type: String },
    InlineFragmentSpreadIsNotPossible { type_condition: Option<String>, parent_type: String },
    NonUniqueVariableDefinitionNames { name: String },
    VariableDefinitionTypeNotInput { variable: String, named_type: String },
    /// `operation_name` is the name of the operation, if it has one.
    VariableNotDefined { variable: String, operation_name: Option<String> },
    VariableDefinitionUnused { variable: String },
    InvalidVariableUsage { variable: String, variable_type: String, location_type: String },
    InvalidOneOfVariableUsage { variable: String, variable_type: String, parent_type: String },
    IntegerOutOfRange,
    NonFiniteFloat,
    NullValueForRequiredType { input_type_name: String },
    /// `value` is the value as the document writes it.
    NoImplicitConversion { value: String, input_type_name: String },
    NoEnumMemberWithName { name: String, enum_type_name: String },
    NoValueForRequiredFields { field_names: Vec<String>, input_object_type_name: String },
    NonUniqueFieldNames { field_name: String },
    NoInputFieldWithName { field: String, input_object_type_name: String },
    CustomScalarInvalidValue { message: String },
    OneOfInputNullValues { input_object_type_name: String },
    OneOfInputNotSingleNonNullValue { input_object_type_name: String, non_null_entries: usize },
    DirectiveDoesNotExist { name: String },
    DirectivesNotUniquePerLocation { name: String },
    /// `location` and `allowed_locations` are locations by their names.
    DirectiveInInvalidLocation { name: String, location: String, allowed_locations: Vec<String> },
    DirectiveMissingRequiredArguments { directive: String, missing_arguments: Vec<String> },
    ArgumentDoesNotExistOnDirective { directive: String, argument: String },
    ArgumentDoesNotExistOnField { field: String, argument: String },
    NonUniqueArgumentNames { name: String },
    /// `field` is the field's key in the response.
    FieldMissingRequiredArguments { field: String, missing_arguments: Vec<String> },
}

/// `` `name` ``: a name between backticks.
pub open spec fn ticked(name: Seq<char>) -> Seq<char> {
    "`"@ + name + "`"@
}

/// The message of a problem.
pub open spec fn spec_problem_message(p: ValidationProblem) -> Seq<char> {
    match p {
        ValidationProblem::NotLoneAnonymousOperation =>
            "Anonymous operations are not allowed when there is more than one operation"@,
        ValidationProblem::NonUniqueOperationNames { name } => "More than one operation named "@ + ticked(name@),
        ValidationProblem::SubscriptionRootNotSingleField =>
            "Subscription operations can only select one field at the root"@,
        ValidationProblem::FieldDoesNotExistOnType { field, named_type } =>
            "Field "@ + ticked(field@) + " does not exist on "@ + ticked(named_type@),
        ValidationProblem::OperationTypeNotDefined { operation_type } =>
            "Schema does not define a "@ + operation_type@ + " root"@,
        ValidationProblem::LeafFieldSelectionNotEmpty { named_type } =>
            "Selection on field of leaf type "@ + ticked(named_type@) + " was not empty"@,
        ValidationProblem::NonLeafFieldSelectionEmpty { named_type } =>
            "No selection on field of non-leaf type "@ + ticked(named_type@),
        ValidationProblem::NonUniqueFragmentDefinitionNames { name } =>
            "Multiple fragment definitions named "@ + ticked(name@),
        ValidationProblem::FragmentDefinitionTargetTypeDoesNotExist { named_type } =>
            "No type definition with name "@ + ticked(named_type@),
        ValidationProblem::InlineFragmentTargetTypeDoesNotExist { named_type } =>
            "No type definition with name "@ + ticked(option_text(named_type)),
        ValidationProblem::FragmentDefinitionTargetTypeNotComposite { named_type } =>
            ticked(named_type@) + " is not a composite type"@,
        ValidationProblem::InlineFragmentTargetTypeNotComposite { named_type } =>
            ticked(option_text(named_type)) + " is not a composite type"@,
        ValidationProblem::FragmentDefinitionUnused { name } => "Fragment definition "@ + ticked(name@) + " is unused"@,
        ValidationProblem::FragmentSpreadTargetUndefined { name } => "No fragment defined with name "@ + ticked(name@),
        ValidationProblem::FragmentSpreadCycle { name } => "Cycle detected in fragment "@ + ticked(name@),
        ValidationProblem::FieldSelectionsDoNotMergeDifferingArguments =>
            "Fields in selection set do not merge due to unequal arguments"@,
        ValidationProblem::FieldSelectionsDoNotMergeDifferingNames =>
            "Fields in selection set do not merge due to unequal field names"@,
        ValidationProblem::FieldSelectionsDoNotMergeIncompatibleTypes =>
            "Fields in selection set do not merge due to incompatible types"@,
        ValidationProblem::FragmentSpreadIsNotPossible { name, parent_type } =>
            "Fragment "@ + ticked(name@) + " cannot be spread for type "@ + parent_type@,
        ValidationProblem::InlineFragmentSpreadIsNotPossible { type_condition, parent_type } =>
            "Fragment targeting type "@ + (match type_condition {
                Some(t) => t@,
                None => parent_type@,
            }) + " cannot be spread for type "@ + parent_type@,
        ValidationProblem::NonUniqueVariableDefinitionNames { name } => "Multiple variable definitions named $"@ + name@,
        ValidationProblem::VariableDefinitionTypeNotInput { variable, named_type } =>
            "Type of variable $"@ + variable@ + ", "@ + named_type@ + ", is not an input type"@,
        ValidationProblem::VariableNotDefined { variable, operation_name } =>
            "Variable $"@ + variable@ + " not defined in "@ + (match operation_name {
                Some(n) => "operation "@ + n@,
                None => "anonymous operation"@,
            }),
        ValidationProblem::VariableDefinitionUnused { variable } => "Variable definition $"@ + variable@ + " not used"@,
        ValidationProblem::InvalidVariableUsage { variable, variable_type, location_type } =>
            "Variable $"@ + variable@ + " of type "@ + variable_type@ + " cannot be used here, where "@ + location_type@
                + " is expected"@,
        ValidationProblem::InvalidOneOfVariableUsage { variable, variable_type, parent_type } =>
            "Variable $"@ + variable@ + " is of type "@ + variable_type@
                + " but must be non-nullable to be used for OneOf Input Object "@ + parent_type@,
        ValidationProblem::IntegerOutOfRange => "Int values must be between -2147483648 and 2147483647"@,
        ValidationProblem::NonFiniteFloat => "Float values must be finite"@,
        ValidationProblem::NullValueForRequiredType { input_type_name } =>
            "Got null when non-null value of type "@ + input_type_name@ + " was expected"@,
        ValidationProblem::NoImplicitConversion { value, input_type_name } =>
            "No implicit conversion of "@ + value@ + " to "@ + input_type_name@,
        ValidationProblem::NoEnumMemberWithName { name, enum_type_name } =>
            "No member "@ + ticked(name@) + " on enum "@ + enum_type_name@,
        ValidationProblem::NoValueForRequiredFields { field_names, input_object_type_name } =>
            "No value for required fields on input type "@ + input_object_type_name@ + ": "@ + spec_join(
                strings_view(field_names@),
                ", "@,
            ),
        ValidationProblem::NonUniqueFieldNames { field_name } => "Object with multiple entries for field "@ + field_name@,
        ValidationProblem::NoInputFieldWithName { field, input_object_type_name } =>
            "No field with name "@ + field@ + " on input type "@ + input_object_type_name@,
        ValidationProblem::CustomScalarInvalidValue { message } => message@,
        ValidationProblem::OneOfInputNullValues { input_object_type_name } =>
            "Multiple entries with null values for oneOf input object "@ + input_object_type_name@,
        ValidationProblem::OneOfInputNotSingleNonNullValue { input_object_type_name, non_null_entries } =>
            "Got "@ + spec_decimal(non_null_entries as nat) + " entries with non-null values for oneOf input object "@
                + input_object_type_name@,
        ValidationProblem::DirectiveDoesNotExist { name } => "No directive definition with name `@"@ + name@ + "`"@,
        ValidationProblem::DirectivesNotUniquePerLocation { name } =>
            "Directive @"@ + name@ + " is not repeatable but was used multiple times in the same location"@,
        ValidationProblem::DirectiveInInvalidLocation { name, location, allowed_locations } =>
            "Directive @"@ + name@ + " cannot be used at location "@ + location@
                + ". It is only allowed at the following locations: "@ + spec_join(strings_view(allowed_locations@), ", "@),
        ValidationProblem::DirectiveMissingRequiredArguments { directive, missing_arguments } =>
            "Directive "@ + ticked(directive@) + " missing argument(s): "@ + spec_join(
                strings_view(missing_arguments@),
                ", "@,
            ),
        ValidationProblem::ArgumentDoesNotExistOnDirective { directive, argument } =>
            "Directive "@ + ticked(directive@) + " does not define an argument named "@ + ticked(argument@),
        ValidationProblem::ArgumentDoesNotExistOnField { field, argument } =>
            "Field "@ + ticked(field@) + " does not define an argument named "@ + ticked(argument@),
        ValidationProblem::NonUniqueArgumentNames { name } => "Multiple arguments with name "@ + ticked(name@),
        ValidationProblem::FieldMissingRequiredArguments { field, missing_arguments } =>
            "Field "@ + ticked(field@) + " missing argument(s): "@ + spec_join(strings_view(missing_arguments@), ", "@),
    }
}

/// The text of an optional name: the name, or nothing.
pub open spec fn option_text(t: Option<String>) -> Seq<char> {
    match t {
        Some(s) => s@,
        None => Seq::empty(),
    }
}

/// `` `name` ``.
fn tick(name: &str) -> (r: String)
    ensures
        r@ == ticked(name@),
{
    proof {
        reveal_strlit("`");
    }
    cat3("`", name, "`")
}

fn opt_str(t: &Option<String>) -> (r: &str)
    ensures
        r@ == option_text(*t),
{
    match t {
        Some(s) => s.as_str(),
        None => {
            proof {
                reveal_strlit("");
            }
            ""
        },
    }
}

impl ValidationProblem {
    /// The message of the problem.
    pub fn message(&self) -> (r: String)
        ensures
            r@ == spec_problem_message(*self),
    {
        proof {
            reveal_strlit("Anonymous operations are not allowed when there is more than one operation");
            reveal_strlit("More than one operation named ");
            reveal_strlit("Subscription operations can only select one field at the root");
            reveal_strlit("Field ");
            reveal_strlit(" does not exist on ");
            reveal_strlit("Schema does not define a ");
            reveal_strlit(" root");
            reveal_strlit("Selection on field of leaf type ");
            reveal_strlit(" was not empty");
            reveal_strlit("No selection on field of non-leaf type ");
            reveal_strlit("Multiple fragment definitions named ");
            reveal_strlit("No type definition with name ");
            reveal_strlit(" is not a composite type");
            reveal_strlit("Fragment definition ");
            reveal_strlit(" is unused");
            reveal_strlit("No fragment defined with name ");
            reveal_strlit("Cycle detected in fragment ");
            reveal_strlit("Fields in selection set do not merge due to unequal arguments");
            reveal_strlit("Fields in selection set do not merge due to unequal field names");
            reveal_strlit("Fields in selection set do not merge due to incompatible types");
            reveal_strlit("Fragment ");
            reveal_strlit(" cannot be spread for type ");
            reveal_strlit("Fragment targeting type ");
            reveal_strlit("Multiple variable definitions named $");
            reveal_strlit("Type of variable $");
            reveal_strlit(", ");
            reveal_strlit(", is not an input type");
            reveal_strlit("Variable $");
            reveal_strlit(" not defined in ");
            reveal_strlit("operation ");
            reveal_strlit("anonymous operation");
            reveal_strlit("Variable definition $");
            reveal_strlit(" not used");
            reveal_strlit(" of type ");
            reveal_strlit(" cannot be used here, where ");
            reveal_strlit(" is expected");
            reveal_strlit(" is of type ");
            reveal_strlit(" but must be non-nullable to be used for OneOf Input Object ");
            reveal_strlit("Int values must be between -2147483648 and 2147483647");
            reveal_strlit("Float values must be finite");
            reveal_strlit("Got null when non-null value of type ");
            reveal_strlit(" was expected");
            reveal_strlit("No implicit conversion of ");
            reveal_strlit(" to ");
            reveal_strlit("No member ");
            reveal_strlit(" on enum ");
            reveal_strlit("No value for required fields on input type ");
            reveal_strlit(": ");
            reveal_strlit("Object with multiple entries for field ");
            reveal_strlit("No field with name ");
            reveal_strlit(" on input type ");
            reveal_strlit("Multiple entries with null values for oneOf input object ");
            reveal_strlit("Got ");
            reveal_strlit(" entries with non-null values for oneOf input object ");
            reveal_strlit("No directive definition with name `@");
            reveal_strlit("`");
            reveal_strlit("Directive @");
            reveal_strlit(" is not repeatable but was used multiple times in the same location");
            reveal_strlit(" cannot be used at location ");
            reveal_strlit(". It is only allowed at the following locations: ");
            reveal_strlit("Directive ");
            reveal_strlit(" missing argument(s): ");
            reveal_strlit(" does not define an argument named ");
            reveal_strlit("Multiple arguments with name ");
        }
        match self {
            ValidationProblem::NotLoneAnonymousOperation => String::from_str(
                "Anonymous operations are not allowed when there is more than one operation",
            ),
            ValidationProblem::NonUniqueOperationNames { name } => cat2(
                "More than one operation named ",
                tick(name.as_str()).as_str(),
            ),
            ValidationProblem::SubscriptionRootNotSingleField => String::from_str(
                "Subscription operations can only select one field at the root",
            ),
            ValidationProblem::FieldDoesNotExistOnType { field, named_type } => cat4(
                "Field ",
                tick(field.as_str()).as_str(),
                " does not exist on ",
                tick(named_type.as_str()).as_str(),
            ),
            ValidationProblem::OperationTypeNotDefined { operation_type } => cat3(
                "Schema does not define a ",
                operation_type.as_str(),
                " root",
            ),
            ValidationProblem::LeafFieldSelectionNotEmpty { named_type } => cat3(
                "Selection on field of leaf type ",
                tick(named_type.as_str()).as_str(),
                " was not empty",
            ),
            ValidationProblem::NonLeafFieldSelectionEmpty { named_type } => cat2(
                "No selection on field of non-leaf type ",
                tick(named_type.as_str()).as_str(),
            ),
            ValidationProblem::NonUniqueFragmentDefinitionNames { name } => cat2(
                "Multiple fragment definitions named ",
                tick(name.as_str()).as_str(),
            ),
            ValidationProblem::FragmentDefinitionTargetTypeDoesNotExist { named_type } => cat2(
                "No type definition with name ",
                tick(named_type.as_str()).as_str(),
            ),
            ValidationProblem::InlineFragmentTargetTypeDoesNotExist { named_type } => cat2(
                "No type definition with name ",
                tick(opt_str(named_type)).as_str(),
            ),
            ValidationProblem::FragmentDefinitionTargetTypeNotComposite { named_type } => cat2(
                tick(named_type.as_str()).as_str(),
                " is not a composite type",
            ),
            ValidationProblem::InlineFragmentTargetTypeNotComposite { named_type } => cat2(
                tick(opt_str(named_type)).as_str(),
                " is not a composite type",
            ),
            ValidationProblem::FragmentDefinitionUnused { name } => cat3(
                "Fragment definition ",
                tick(name.as_str()).as_str(),
                " is unused",
            ),
            ValidationProblem::FragmentSpreadTargetUndefined { name } => cat2(
                "No fragment defined with name ",
                tick(name.as_str()).as_str(),
            ),
            ValidationProblem::FragmentSpreadCycle { name } => cat2(
                "Cycle detected in fragment ",
                tick(name.as_str()).as_str(),
            ),
            ValidationProblem::FieldSelectionsDoNotMergeDifferingArguments => String::from_str(
                "Fields in selection set do not merge due to unequal arguments",
            ),
            ValidationProblem::FieldSelectionsDoNotMergeDifferingNames => String::from_str(
                "Fields in selection set do not merge due to unequal field names",
            ),
            ValidationProblem::FieldSelectionsDoNotMergeIncompatibleTypes => String::from_str(
                "Fields in selection set do not merge due to incompatible types",
            ),
            ValidationProblem::FragmentSpreadIsNotPossible { name, parent_type } => cat4(
                "Fragment ",
                tick(name.as_str()).as_str(),
                " cannot be spread for type ",
                parent_type.as_str(),
            ),
            ValidationProblem::InlineFragmentSpreadIsNotPossible { type_condition, parent_type } => {
                let target = match type_condition {
                    Some(t) => t.as_str(),
                    None => parent_type.as_str(),
                };
                cat4("Fragment targeting type ", target, " cannot be spread for type ", parent_type.as_str())
            },
            ValidationProblem::NonUniqueVariableDefinitionNames { name } => cat2(
                "Multiple variable definitions named $",
                name.as_str(),
            ),
            ValidationProblem::VariableDefinitionTypeNotInput { variable, named_type } => cat5(
                "Type of variable $",
                variable.as_str(),
                ", ",
                named_type.as_str(),
                ", is not an input type",
            ),
            ValidationProblem::VariableNotDefined { variable, operation_name } => {
                let operation = match operation_name {
                    Some(n) => cat2("operation ", n.as_str()),
                    None => String::from_str("anonymous operation"),
                };
                cat4("Variable $", variable.as_str(), " not defined in ", operation.as_str())
            },
            ValidationProblem::VariableDefinitionUnused { variable } => cat3(
                "Variable definition $",
                variable.as_str(),
                " not used",
            ),
            ValidationProblem::InvalidVariableUsage { variable, variable_type, location_type } => {
                let head = cat4("Variable $", variable.as_str(), " of type ", variable_type.as_str());
                cat4(head.as_str(), " cannot be used here, where ", location_type.as_str(), " is expected")
            },
            ValidationProblem::InvalidOneOfVariableUsage { variable, variable_type, parent_type } => {
                let head = cat4("Variable $", variable.as_str(), " is of type ", variable_type.as_str());
                cat3(
                    head.as_str(),
                    " but must be non-nullable to be used for OneOf Input Object ",
                    parent_type.as_str(),
                )
            },
            ValidationProblem::IntegerOutOfRange => String::from_str(
                "Int values must be between -2147483648 and 2147483647",
            ),
            ValidationProblem::NonFiniteFloat => String::from_str("Float values must be finite"),
            ValidationProblem::NullValueForRequiredType { input_type_name } => cat3(
                "Got null when non-null value of type ",
                input_type_name.as_str(),
                " was expected",
            ),
            ValidationProblem::NoImplicitConversion { value, input_type_name } => cat4(
                "No implicit conversion of ",
                value.as_str(),
                " to ",
                input_type_name.as_str(),
            ),
            ValidationProblem::NoEnumMemberWithName { name, enum_type_name } => cat4(
                "No member ",
                tick(name.as_str()).as_str(),
                " on enum ",
                enum_type_name.as_str(),
            ),
            ValidationProblem::NoValueForRequiredFields { field_names, input_object_type_name } => cat4(
                "No value for required fields on input type ",
                input_object_type_name.as_str(),
                ": ",
                join_strings(field_names, ", ").as_str(),
            ),
            ValidationProblem::NonUniqueFieldNames { field_name } => cat2(
                "Object with multiple entries for field ",
                field_name.as_str(),
            ),
            ValidationProblem::NoInputFieldWithName { field, input_object_type_name } => cat4(
                "No field with name ",
                field.as_str(),
                " on input type ",
                input_object_type_name.as_str(),
            ),
            ValidationProblem::CustomScalarInvalidValue { message } => message.clone(),
            ValidationProblem::OneOfInputNullValues { input_object_type_name } => cat2(
                "Multiple entries with null values for oneOf input object ",
                input_object_type_name.as_str(),
            ),
            ValidationProblem::OneOfInputNotSingleNonNullValue { input_object_type_name, non_null_entries } => cat4(
                "Got ",
                decimal_string(*non_null_entries as u64).as_str(),
                " entries with non-null values for oneOf input object ",
                input_object_type_name.as_str(),
            ),
            ValidationProblem::DirectiveDoesNotExist { name } => cat3(
                "No directive definition with name `@",
                name.as_str(),
                "`",
            ),
            ValidationProblem::DirectivesNotUniquePerLocation { name } => cat3(
                "Directive @",
                name.as_str(),
                " is not repeatable but was used multiple times in the same location",
            ),
            ValidationProblem::DirectiveInInvalidLocation { name, location, allowed_locations } => {
                let head = cat4("Directive @", name.as_str(), " cannot be used at location ", location.as_str());
                cat3(
                    head.as_str(),
                    ". It is only allowed at the following locations: ",
                    join_strings(allowed_locations, ", ").as_str(),
                )
            },
            ValidationProblem::DirectiveMissingRequiredArguments { directive, missing_arguments } => cat4(
                "Directive ",
                tick(directive.as_str()).as_str(),
                " missing argument(s): ",
                join_strings(missing_arguments, ", ").as_str(),
            ),
            ValidationProblem::ArgumentDoesNotExistOnDirective { directive, argument } => cat4(
                "Directive ",
                tick(directive.as_str()).as_str(),
                " does not define an argument named ",
                tick(argument.as_str()).as_str(),
            ),
            ValidationProblem::ArgumentDoesNotExistOnField { field, argument } => cat4(
                "Field ",
                tick(field.as_str()).as_str(),
                " does not define an argument named ",
                tick(argument.as_str()).as_str(),
            ),
            ValidationProblem::NonUniqueArgumentNames { name } => cat2(
                "Multiple arguments with name ",
                tick(name.as_str()).as_str(),
            ),
            ValidationProblem::FieldMissingRequiredArguments { field, missing_arguments } => cat4(
                "Field ",
                tick(field.as_str()).as_str(),
                " missing argument(s): ",
                join_strings(missing_arguments, ", ").as_str(),
            ),
        }
    }
}

impl ValidationError {
    /// The error that Ruby code receives for a problem: its message.
    pub fn from_problem(problem: &ValidationProblem) -> (r: ValidationError)
        ensures
            r@ == spec_problem_message(*problem),
    {
        ValidationError::new(problem.message())
    }
}

} // verus!
