use bluejay_rb::errors::ValidationError;
use bluejay_rb::validation::ValidationProblem;

fn s(x: &str) -> String {
    x.to_string()
}

#[test]
fn operation_problems() {
    assert_eq!(
        ValidationProblem::NotLoneAnonymousOperation.message(),
        "Anonymous operations are not allowed when there is more than one operation"
    );
    assert_eq!(
        ValidationProblem::NonUniqueOperationNames { name: s("A") }.message(),
        "More than one operation named `A`"
    );
    assert_eq!(
        ValidationProblem::OperationTypeNotDefined { operation_type: s("mutation") }.message(),
        "Schema does not define a mutation root"
    );
}

#[test]
fn field_and_fragment_problems() {
    assert_eq!(
        ValidationProblem::FieldDoesNotExistOnType { field: s("age"), named_type: s("Dog") }.message(),
        "Field `age` does not exist on `Dog`"
    );
    assert_eq!(
        ValidationProblem::LeafFieldSelectionNotEmpty { named_type: s("String!") }.message(),
        "Selection on field of leaf type `String!` was not empty"
    );
    assert_eq!(
        ValidationProblem::InlineFragmentTargetTypeDoesNotExist { named_type: None }.message(),
        "No type definition with name ``"
    );
    assert_eq!(
        ValidationProblem::InlineFragmentSpreadIsNotPossible { type_condition: None, parent_type: s("Cat") }.message(),
        "Fragment targeting type Cat cannot be spread for type Cat"
    );
    assert_eq!(
        ValidationProblem::FragmentSpreadIsNotPossible { name: s("f"), parent_type: s("Cat") }.message(),
        "Fragment `f` cannot be spread for type Cat"
    );
}

#[test]
fn variable_problems() {
    assert_eq!(
        ValidationProblem::VariableNotDefined { variable: s("x"), operation_name: Some(s("Q")) }.message(),
        "Variable $x not defined in operation Q"
    );
    assert_eq!(
        ValidationProblem::VariableNotDefined { variable: s("x"), operation_name: None }.message(),
        "Variable $x not defined in anonymous operation"
    );
    assert_eq!(
        ValidationProblem::InvalidVariableUsage { variable: s("x"), variable_type: s("Int"), location_type: s("Int!") }
            .message(),
        "Variable $x of type Int cannot be used here, where Int! is expected"
    );
}

#[test]
fn value_problems() {
    assert_eq!(
        ValidationProblem::NoValueForRequiredFields {
            field_names: vec![s("a"), s("b")],
            input_object_type_name: s("In"),
        }
        .message(),
        "No value for required fields on input type In: a, b"
    );
    assert_eq!(
        ValidationProblem::OneOfInputNotSingleNonNullValue { input_object_type_name: s("One"), non_null_entries: 12 }
            .message(),
        "Got 12 entries with non-null values for oneOf input object One"
    );
    assert_eq!(ValidationProblem::CustomScalarInvalidValue { message: s("bad") }.message(), "bad");
}

#[test]
fn directive_and_argument_problems() {
    assert_eq!(
        ValidationProblem::DirectiveDoesNotExist { name: s("foo") }.message(),
        "No directive definition with name `@foo`"
    );
    assert_eq!(
        ValidationProblem::DirectiveInInvalidLocation {
            name: s("skip"),
            location: s("QUERY"),
            allowed_locations: vec![s("FIELD"), s("FRAGMENT_SPREAD"), s("INLINE_FRAGMENT")],
        }
        .message(),
        "Directive @skip cannot be used at location QUERY. It is only allowed at the following locations: FIELD, FRAGMENT_SPREAD, INLINE_FRAGMENT"
    );
    assert_eq!(
        ValidationProblem::FieldMissingRequiredArguments { field: s("greet"), missing_arguments: vec![s("name")] }
            .message(),
        "Field `greet` missing argument(s): name"
    );
    let e = ValidationError::from_problem(&ValidationProblem::NonUniqueArgumentNames { name: s("a") });
    assert_eq!(e.message(), "Multiple arguments with name `a`");
}
