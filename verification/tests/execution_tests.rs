use bluejay_rb::checks::{
    document_check, field_arguments_check, operations_typed_check, schema_ok, selection_refs_check, selections_check,
};
use bluejay_rb::collect_fields::collect_fields;
use bluejay_rb::definitions::DirectiveDefinition;
use bluejay_rb::document::{
    Argument, ExecutableDirective, ExecutableDocument, Field, FragmentDefinition, OperationDefinition, OperationType,
    Selection, VariableDefinition,
};
use bluejay_rb::engine::{
    coerce_argument_values, does_fragment_type_apply, get_operation, get_variable_values, resolve_interface_type,
    resolve_union_type, ExecutionError,
};
use bluejay_rb::execution::{
    complete_value_step, finish_custom_scalar, finish_list, finish_selection_set, plan_field, resolver_error,
    CompletionStep, FieldPlan,
};
use bluejay_rb::input_schema::{BaseInputType, InputSchema, InputType, InputValueDefinition, DeclaredType};
use bluejay_rb::output_schema::{
    BaseOutputType, FieldDefinition, InterfaceTypeDefinition, ObjectTypeDefinition, OutputType, SchemaDefinition,
    TypeDefinitionRef, UnionTypeDefinition,
};
use bluejay_rb::parser_value::{ParserValue, ParserValueKind};
use bluejay_rb::requests::{operation_root, parse, prepare_request, start_request, ExecutionResult, Prepared, RequestStart};
use bluejay_rb::result_coercion::FieldError;
use bluejay_rb::ruby_value::RubyValue;
use bluejay_rb::scalar::BuiltinScalar;

fn s(x: &str) -> String {
    x.to_string()
}

fn ivd(name: &str, ruby: &str, ty: InputType) -> InputValueDefinition {
    InputValueDefinition {
        name: s(name),
        description: None,
        input_type: ty,
        directives: vec![],
        default_value: None,
        default_inner: None,
        ruby_name: s(ruby),
        deprecation_reason: None,
    }
}

fn boolean_required() -> InputType {
    InputType::Base(BaseInputType::BuiltinScalar(BuiltinScalar::Boolean), true)
}

fn condition(name: &str, class: &str) -> DirectiveDefinition {
    DirectiveDefinition::new(s(name), vec![ivd("if", "if_arg", boolean_required())], None, false, vec![], s(class))
}

fn field_def(name: &str, ty: OutputType, args: Vec<InputValueDefinition>) -> FieldDefinition {
    FieldDefinition {
        name: s(name),
        description: None,
        argument_definitions: args,
        output_type: ty,
        directives: vec![],
        is_builtin: false,
        ruby_resolver_method_name: s(name),
        extra_resolver_args: vec![],
        deprecation_reason: None,
    }
}

fn schema() -> SchemaDefinition {
    let string = OutputType::Base(BaseOutputType::BuiltinScalar(BuiltinScalar::String), true);
    SchemaDefinition {
        input: InputSchema { enums: vec![], input_objects: vec![], custom_scalars: vec![] },
        objects: vec![
            ObjectTypeDefinition::new(
                s("Query"),
                vec![
                    field_def("name", string, vec![]),
                    field_def(
                        "greet",
                        OutputType::Base(BaseOutputType::BuiltinScalar(BuiltinScalar::String), false),
                        vec![ivd("loud", "loud", InputType::Base(BaseInputType::BuiltinScalar(BuiltinScalar::Boolean), false))],
                    ),
                ],
                vec![0],
                None,
                vec![],
                s("Schema::Query"),
            ),
            ObjectTypeDefinition::new(s("Dog"), vec![], vec![0], None, vec![], s("Schema::Dog")),
        ],
        interfaces: vec![InterfaceTypeDefinition {
            name: s("Named"),
            description: None,
            field_definitions: vec![],
            interface_implementations: vec![],
            directives: vec![],
            ruby_class_name: s("Schema::Named"),
        }],
        unions: vec![UnionTypeDefinition {
            name: s("Pet"),
            description: None,
            member_types: vec![1],
            directives: vec![],
            ruby_class_name: s("Schema::Pet"),
        }],
        directives: vec![
            condition("skip", "Bluejay::Builtin::Directives::Skip"),
            condition("include", "Bluejay::Builtin::Directives::Include"),
        ],
        query: 0,
        mutation: None,
        ruby_class_name: s("Schema"),
    }
}

fn pv(kind: ParserValueKind, display: &str) -> ParserValue {
    ParserValue { kind, display: s(display) }
}

fn plain_field(name: &str, alias: Option<&str>, directives: Vec<ExecutableDirective>) -> Field {
    Field { alias: alias.map(s), name: s(name), arguments: None, directives, selection_set: None }
}

fn skip_if(value: bool) -> ExecutableDirective {
    ExecutableDirective {
        name: s("skip"),
        arguments: Some(vec![Argument { name: s("if"), value: pv(ParserValueKind::Boolean(value), "") }]),
    }
}

fn document() -> ExecutableDocument {
    ExecutableDocument {
        operation_definitions: vec![
            OperationDefinition {
                operation_type: OperationType::Query,
                name: Some(s("A")),
                variable_definitions: Some(vec![VariableDefinition {
                    name: s("flag"),
                    variable_type: DeclaredType::Named(s("Boolean"), true),
                    default_value: None,
                }]),
                directives: vec![],
                selection_set: vec![],
            },
            OperationDefinition {
                operation_type: OperationType::Query,
                name: Some(s("B")),
                variable_definitions: Some(vec![VariableDefinition {
                    name: s("flag"),
                    variable_type: DeclaredType::Named(s("Boolean"), true),
                    default_value: Some(pv(ParserValueKind::Boolean(false), "false")),
                }]),
                directives: vec![],
                selection_set: vec![],
            },
        ],
        fragment_definitions: vec![FragmentDefinition {
            name: s("F"),
            type_condition: s("Named"),
            directives: vec![],
            selection_set: vec![Selection::Field(plain_field("name", None, vec![]))],
        }],
    }
}

#[test]
fn operation_is_chosen_by_name_or_alone() {
    let doc = document();
    assert_eq!(get_operation(&doc, Some("B")).unwrap(), 1);
    match get_operation(&doc, Some("C")) {
        Err(e) => assert_eq!(e.into_ruby().message(), "No operation definition named `C`"),
        Ok(k) => panic!("{}", k),
    }
    match get_operation(&doc, None) {
        Err(e) => assert_eq!(
            e.into_ruby().message(),
            "Operation name is required when document does not contain exactly 1 operation definition"
        ),
        Ok(k) => panic!("{}", k),
    }
}

#[test]
fn missing_required_variable_is_reported() {
    let doc = document();
    match get_variable_values(&schema(), &doc.operation_definitions[0], &vec![], &vec![]) {
        Ok(Err(errors)) => {
            assert_eq!(errors.len(), 1);
            let e = errors.into_iter().next().unwrap().into_ruby();
            assert_eq!(e.message(), "No value was provided for required variable `$flag`");
        }
        other => panic!("{:?}", other),
    }
}

#[test]
fn default_of_variable_is_used_and_given_value_is_coerced() {
    let doc = document();
    match get_variable_values(&schema(), &doc.operation_definitions[1], &vec![], &vec![]) {
        Ok(Ok(vars)) => assert!(matches!(vars.as_slice(), [(k, RubyValue::Boolean(false))] if k == "flag")),
        other => panic!("{:?}", other),
    }
    match get_variable_values(&schema(), &doc.operation_definitions[0], &vec![(s("flag"), RubyValue::Integer(1))], &vec![]) {
        Ok(Err(errors)) => {
            let e = errors.into_iter().next().unwrap().into_ruby();
            assert_eq!(e.message(), "No implicit conversion of integer to Boolean");
            assert_eq!(e.path(), None);
        }
        other => panic!("{:?}", other),
    }
}

#[test]
fn arguments_become_keyword_arguments() {
    let sc = schema();
    let fd = &sc.objects[0].field_definitions[1];
    let args = Some(vec![Argument { name: s("loud"), value: pv(ParserValueKind::Variable(s("l")), "$l") }]);
    let vars = vec![(s("l"), RubyValue::Boolean(true))];
    match coerce_argument_values(&sc.input, fd, &args, &vars, &vec![], &RubyValue::Nil) {
        Ok(Ok(kw)) => assert!(matches!(kw.as_slice(), [(k, RubyValue::Boolean(true))] if k == "loud")),
        other => panic!("{:?}", other),
    }
}

#[test]
fn fragment_conditions_apply_by_type() {
    let sc = schema();
    assert!(does_fragment_type_apply(&sc, 0, "Query"));
    assert!(!does_fragment_type_apply(&sc, 1, "Query"));
    assert!(does_fragment_type_apply(&sc, 1, "Named"));
    assert!(does_fragment_type_apply(&sc, 1, "Pet"));
    assert!(!does_fragment_type_apply(&sc, 0, "Pet"));
    assert_eq!(sc.type_definition("Pet"), Some(TypeDefinitionRef::Union(0)));
    assert_eq!(resolve_union_type(&sc, 0, "Dog"), Some(1));
    assert_eq!(resolve_union_type(&sc, 0, "Query"), None);
}

#[test]
fn fields_are_grouped_by_response_key_and_skip_leaves_out() {
    let sc = schema();
    let doc = document();
    let selections = vec![
        Selection::Field(plain_field("name", None, vec![])),
        Selection::Field(plain_field("greet", Some("name"), vec![])),
        Selection::Field(plain_field("greet", None, vec![skip_if(true)])),
        Selection::FragmentSpread { name: s("F"), directives: vec![] },
        Selection::FragmentSpread { name: s("F"), directives: vec![] },
        Selection::InlineFragment {
            type_condition: Some(s("Pet")),
            directives: vec![],
            selection_set: vec![Selection::Field(plain_field("pet", None, vec![]))],
        },
        Selection::InlineFragment {
            type_condition: None,
            directives: vec![skip_if(false)],
            selection_set: vec![Selection::Field(plain_field("other", None, vec![]))],
        },
    ];
    let refs: Vec<&Selection> = selections.iter().collect();
    let mut visited = vec![];
    let groups = collect_fields(&sc, &doc, &vec![], &vec![], 0, &refs, &mut visited);
    let keys: Vec<&str> = groups.iter().map(|(k, _)| k.as_str()).collect();
    assert_eq!(keys, vec!["name", "other"]);
    assert_eq!(groups[0].1.len(), 3);
    assert_eq!(groups[0].1[1].name, "greet");
    assert_eq!(visited, vec![s("F")]);
}

#[test]
fn completion_checks_leaves_and_asks_for_more_elsewhere() {
    let sc = schema();
    let path = vec![s("a")];
    let int = OutputType::Base(BaseOutputType::BuiltinScalar(BuiltinScalar::Int), true);
    match complete_value_step(&sc, &int, &RubyValue::Nil, &path) {
        CompletionStep::Done { value: RubyValue::Nil, errors } => {
            assert_eq!(errors.len(), 1);
            let e = errors.into_iter().next().unwrap().into_ruby();
            assert_eq!(e.message(), "Cannot return null for non-nullable field");
            assert_eq!(e.path(), Some(vec![s("a")]));
        }
        other => panic!("{:?}", other),
    }
    match complete_value_step(&sc, &int, &RubyValue::String(s("1")), &path) {
        CompletionStep::Done { value: RubyValue::Nil, errors } => {
            assert_eq!(errors.into_iter().next().unwrap().into_ruby().message(), "Cannot coerce result to builtin scalar `Int`")
        }
        other => panic!("{:?}", other),
    }
    let obj = OutputType::Base(BaseOutputType::Object(1), false);
    assert!(matches!(complete_value_step(&sc, &obj, &RubyValue::Integer(1), &path), CompletionStep::SelectionSet { object: 1 }));
    let list = OutputType::List(Box::new(int), false);
    assert!(matches!(complete_value_step(&sc, &list, &RubyValue::Array(vec![]), &path), CompletionStep::CompleteItems));
    match complete_value_step(&sc, &list, &RubyValue::Integer(1), &path) {
        CompletionStep::Done { errors, .. } => {
            assert_eq!(errors.into_iter().next().unwrap().into_ruby().message(), "Cannot return non-list for list field")
        }
        other => panic!("{:?}", other),
    }
}

#[test]
fn list_with_null_for_required_elements_is_null() {
    let int = OutputType::Base(BaseOutputType::BuiltinScalar(BuiltinScalar::Int), true);
    let (v, errors) = finish_list(&int, vec![(RubyValue::Integer(1), vec![]), (RubyValue::Nil, vec![ExecutionError::ApplicationError(s("x"))])]);
    assert!(matches!(v, RubyValue::Nil));
    assert_eq!(errors.len(), 1);
    let nullable = OutputType::Base(BaseOutputType::BuiltinScalar(BuiltinScalar::Int), false);
    let (v, _) = finish_list(&nullable, vec![(RubyValue::Integer(1), vec![]), (RubyValue::Nil, vec![])]);
    assert!(matches!(v, RubyValue::Array(ref items) if items.len() == 2));
}

#[test]
fn selection_set_is_null_where_a_required_field_is_null() {
    let (v, _) = finish_selection_set(vec![(s("a"), RubyValue::Integer(1), true, vec![]), (s("b"), RubyValue::Nil, false, vec![])]);
    match v {
        RubyValue::Hash(entries) => {
            assert_eq!(entries.len(), 2);
            assert!(matches!(&entries[0], (RubyValue::String(k), RubyValue::Integer(1)) if k == "a"));
        }
        other => panic!("{:?}", other),
    }
    let (v, errors) = finish_selection_set(vec![
        (s("a"), RubyValue::Nil, true, vec![ExecutionError::ApplicationError(s("boom"))]),
        (s("b"), RubyValue::Integer(2), false, vec![]),
    ]);
    assert!(matches!(v, RubyValue::Nil));
    assert_eq!(errors.into_iter().next().unwrap().into_ruby().message(), "Internal error: boom");
}

#[test]
fn field_error_messages() {
    assert_eq!(FieldError::ApplicationError(s("x")).message(), "Application error: x");
    assert_eq!(
        FieldError::CannotCoerceResultToBuiltinScalar { builtin_scalar: BuiltinScalar::Float }.message(),
        "Cannot coerce result to builtin scalar `Float`"
    );
    assert_eq!(FieldError::CannotCoerceResultToCustomScalar { message: s("bad") }.message(), "bad");
}

#[test]
fn parse_tells_whether_the_document_has_definitions() {
    assert!(parse("query { name }"));
    assert!(parse("fragment F on Query { name }"));
    assert!(!parse(""));
    assert!(!parse("query {"));
}

#[test]
fn request_with_parse_errors_fails_at_once() {
    match start_request(&schema(), "query {", None, &vec![], &vec![]) {
        Ok((RequestStart::Failed(errors), None)) => {
            assert!(!errors.is_empty());
            let result = ExecutionResult::new(RubyValue::Nil, errors);
            assert!(result.errors.iter().all(|e| e.path().is_none()));
        }
        other => panic!("{:?}", other),
    }
}

#[test]
fn operation_roots() {
    let sc = schema();
    assert_eq!(operation_root(&sc, OperationType::Query), Some((0, "query")));
    assert_eq!(operation_root(&sc, OperationType::Mutation), None);
    assert_eq!(operation_root(&sc, OperationType::Subscription), None);
}

#[test]
fn interface_values_resolve_to_implementing_objects() {
    let sc = schema();
    assert_eq!(resolve_interface_type(&sc, 0, "Dog"), Some(1));
    assert_eq!(resolve_interface_type(&sc, 0, "Query"), Some(0));
    assert_eq!(resolve_interface_type(&sc, 0, "Named"), None);
    assert_eq!(resolve_interface_type(&sc, 0, "Cat"), None);
}

#[test]
fn fields_without_arguments_resolve_without_keywords() {
    let sc = schema();
    let field = plain_field("name", None, vec![]);
    match plan_field(&sc, 0, &field, &vec![], &vec![], &RubyValue::Nil) {
        Ok(FieldPlan::Resolve { method, kwargs: None }) => assert_eq!(method, "name"),
        _ => panic!("expected a plain resolve"),
    }
}

#[test]
fn fields_with_arguments_get_coerced_keywords() {
    let sc = schema();
    let field = Field {
        alias: None,
        name: s("greet"),
        arguments: Some(vec![Argument { name: s("loud"), value: pv(ParserValueKind::Boolean(true), "true") }]),
        directives: vec![],
        selection_set: None,
    };
    match plan_field(&sc, 0, &field, &vec![], &vec![], &RubyValue::Nil) {
        Ok(FieldPlan::Resolve { method, kwargs: Some(kw) }) => {
            assert_eq!(method, "greet");
            assert_eq!(kw.len(), 1);
            assert_eq!(kw[0].0, "loud");
            assert!(matches!(kw[0].1, RubyValue::Boolean(true)));
        }
        _ => panic!("expected a resolve with keywords"),
    }
    let bad = Field {
        alias: None,
        name: s("greet"),
        arguments: Some(vec![Argument { name: s("loud"), value: pv(ParserValueKind::Integer(s("3")), "3") }]),
        directives: vec![],
        selection_set: None,
    };
    match plan_field(&sc, 0, &bad, &vec![], &vec![], &RubyValue::Nil) {
        Ok(FieldPlan::Failed { errors }) => {
            assert_eq!(errors.len(), 1);
            assert!(matches!(&errors[0], ExecutionError::CoercionError(_)));
        }
        _ => panic!("expected the field to fail"),
    }
}

#[test]
fn a_raising_resolver_gives_nil_and_its_message() {
    let (value, errors) = resolver_error(s("boom"));
    assert!(matches!(value, RubyValue::Nil));
    assert_eq!(errors.len(), 1);
    assert!(matches!(&errors[0], ExecutionError::ApplicationError(m) if m == "boom"));
}

#[test]
fn custom_scalar_results_complete_or_report() {
    let path = vec![s("a")];
    let (value, errors) = finish_custom_scalar(Ok(RubyValue::String(s("x"))), &path);
    assert!(matches!(value, RubyValue::String(v) if v == "x"));
    assert!(errors.is_empty());
    let (value, errors) =
        finish_custom_scalar(Err(FieldError::CannotCoerceResultToCustomScalar { message: s("nope") }), &path);
    assert!(matches!(value, RubyValue::Nil));
    assert_eq!(errors.len(), 1);
    assert!(matches!(&errors[0], ExecutionError::FieldError { path: p, .. } if *p == vec![s("a")]));
}

#[test]
fn schemas_and_documents_are_checked_before_execution() {
    let sc = schema();
    assert!(schema_ok(&sc));
    let mut broken = schema();
    broken.unions[0].member_types = vec![7];
    assert!(!schema_ok(&broken));
    let mut no_skip = schema();
    no_skip.directives.remove(0);
    assert!(!schema_ok(&no_skip));

    let doc = document();
    assert!(document_check(&sc, &doc));
    assert!(operations_typed_check(&sc, &doc));

    // `skip` without its required `if` argument cannot be answered
    let bare_skip = ExecutableDirective { name: s("skip"), arguments: None };
    let sels = vec![Selection::Field(plain_field("name", None, vec![bare_skip]))];
    assert!(!selections_check(&sc, &sels));
    let ok_sels = vec![Selection::Field(plain_field("name", None, vec![skip_if(true)]))];
    assert!(selections_check(&sc, &ok_sels));
    let refs: Vec<&Selection> = ok_sels.iter().collect();
    assert!(selection_refs_check(&sc, &refs));

    let greet = &sc.objects[0].field_definitions[1];
    assert!(field_arguments_check(greet, &None));
}

#[test]
fn starting_a_request_parses_the_query_and_coerces_its_variables() {
    let sc = schema();
    let given = vec![(s("loud"), RubyValue::Boolean(true))];
    match start_request(&sc, "query Q($loud: Boolean!) { greet(loud: $loud) }", Some("Q"), &given, &vec![]) {
        Ok((RequestStart::Ready { operation, variables }, Some(doc))) => {
            assert_eq!(operation, 0);
            assert_eq!(variables.len(), 1);
            assert_eq!(variables[0].0, "loud");
            assert!(matches!(variables[0].1, RubyValue::Boolean(true)));
            let op = &doc.operation_definitions[0];
            assert_eq!(op.name.as_deref(), Some("Q"));
            let defs = op.variable_definitions.as_ref().unwrap();
            assert!(matches!(&defs[0].variable_type, DeclaredType::Named(n, true) if n == "Boolean"));
            match &op.selection_set[0] {
                Selection::Field(f) => {
                    assert_eq!(f.name, "greet");
                    let args = f.arguments.as_ref().unwrap();
                    assert!(matches!(&args[0].value.kind, ParserValueKind::Variable(v) if v == "loud"));
                    assert_eq!(args[0].value.display, "$loud");
                }
                other => panic!("{:?}", other),
            }
        }
        other => panic!("{:?}", other),
    }
}

#[test]
fn starting_a_request_reports_a_missing_operation() {
    match start_request(&schema(), "query A { name }", Some("B"), &vec![], &vec![]) {
        Ok((RequestStart::Failed(errors), Some(_))) => {
            assert_eq!(errors.len(), 1);
            assert!(matches!(&errors[0], ExecutionError::NoOperationWithName { name } if name == "B"));
        }
        other => panic!("{:?}", other),
    }
}

#[test]
fn starting_a_request_reports_a_missing_required_variable() {
    match start_request(&schema(), "query ($loud: Boolean!) { greet(loud: $loud) }", None, &vec![], &vec![]) {
        Ok((RequestStart::Failed(errors), Some(_))) => {
            assert_eq!(errors.len(), 1);
            assert!(matches!(&errors[0], ExecutionError::RequiredVariableMissingValue { name } if name == "loud"));
        }
        other => panic!("{:?}", other),
    }
}

#[test]
fn a_variable_of_a_type_the_schema_lacks_is_unsupported() {
    match prepare_request(&schema(), "query ($x: Unknown) { name }", None) {
        (Prepared::Unsupported, Some(doc)) => assert_eq!(doc.operation_definitions.len(), 1),
        other => panic!("{:?}", other),
    }
}

#[test]
fn prepared_documents_keep_wide_integers_and_printed_values() {
    match prepare_request(&schema(), "{ greet(loud: 12345678901234567890) name(a: [1, \"x\"], b: {k: 1.5}) }", None) {
        (Prepared::Ready(0), Some(doc)) => {
            let op = &doc.operation_definitions[0];
            assert_eq!(op.operation_type, OperationType::Query);
            match (&op.selection_set[0], &op.selection_set[1]) {
                (Selection::Field(greet), Selection::Field(name)) => {
                    let v = &greet.arguments.as_ref().unwrap()[0].value;
                    assert!(matches!(&v.kind, ParserValueKind::Integer(lit) if lit == "12345678901234567890"));
                    let args = name.arguments.as_ref().unwrap();
                    assert_eq!(args[0].value.display, "[1, \"x\"]");
                    assert_eq!(args[1].value.display, "{ k: 1.5 }");
                }
                other => panic!("{:?}", other),
            }
        }
        other => panic!("{:?}", other),
    }
}

#[test]
fn declared_variable_types_are_read_past_comments_and_commas() {
    let q = "query ($a: [Int!]!, $b # note\n : String , $c: [[ID]]) { name }";
    match prepare_request(&schema(), q, None) {
        (_, Some(doc)) => {
            let defs = doc.operation_definitions[0].variable_definitions.as_ref().unwrap();
            assert_eq!(defs.len(), 3);
            match &defs[0].variable_type {
                DeclaredType::List(inner, true) => {
                    assert!(matches!(inner.as_ref(), DeclaredType::Named(n, true) if n == "Int"))
                }
                other => panic!("{:?}", other),
            }
            assert!(matches!(&defs[1].variable_type, DeclaredType::Named(n, false) if n == "String"));
            match &defs[2].variable_type {
                DeclaredType::List(inner, false) => match inner.as_ref() {
                    DeclaredType::List(inner2, false) => {
                        assert!(matches!(inner2.as_ref(), DeclaredType::Named(n, false) if n == "ID"))
                    }
                    other => panic!("{:?}", other),
                },
                other => panic!("{:?}", other),
            }
        }
        other => panic!("{:?}", other),
    }
}

#[test]
fn only_what_the_operation_reaches_is_checked() {
    let q = "query A { name } query B($x: Unknown) { name } fragment Bad on String { name }";
    assert!(matches!(prepare_request(&schema(), q, Some("A")), (Prepared::Ready(0), Some(_))));
    assert!(matches!(prepare_request(&schema(), q, Some("B")), (Prepared::Unsupported, Some(_))));
    let reached = "query { ...Bad } fragment Bad on String { name }";
    assert!(matches!(prepare_request(&schema(), reached, None), (Prepared::Unsupported, Some(_))));
}
