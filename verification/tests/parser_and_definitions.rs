use bluejay_rb::definitions::DirectiveDefinition;
use bluejay_rb::input_coercion::CoercionFailure;
use bluejay_rb::input_schema::{
    BaseInputType, EnumTypeDefinition, EnumValueDefinition, InputObjectTypeDefinition, InputSchema, InputType,
    InputValueDefinition, DeclaredType,
};
use bluejay_rb::output_schema::{BaseOutputType, ExtraResolverArg, FieldDefinition, OutputType};
use bluejay_rb::parser_coercion::{coerce_parser, value_from_core_value};
use bluejay_rb::parser_value::{literal_i32, ParserValue, ParserValueKind};
use bluejay_rb::type_source::declared_type;
use bluejay_rb::ruby_value::{RubyFloat, RubyValue};
use bluejay_rb::scalar::BuiltinScalar;

fn s(x: &str) -> String {
    x.to_string()
}

fn pv(kind: ParserValueKind, display: &str) -> ParserValue {
    ParserValue { kind, display: s(display) }
}

fn ivd(name: &str, ty: InputType) -> InputValueDefinition {
    InputValueDefinition {
        name: s(name),
        description: None,
        input_type: ty,
        directives: vec![],
        default_value: None,
        default_inner: None,
        ruby_name: s(name),
        deprecation_reason: None,
    }
}

fn schema() -> InputSchema {
    InputSchema {
        enums: vec![EnumTypeDefinition {
            name: s("Size"),
            description: None,
            enum_value_definitions: vec![EnumValueDefinition {
                name: s("BIG"),
                description: None,
                directives: vec![],
                deprecation_reason: None,
            }],
            directives: vec![],
            ruby_class_name: s("Schema::Size"),
        }],
        input_objects: vec![InputObjectTypeDefinition {
            name: s("Filter"),
            description: None,
            input_field_definitions: vec![ivd("size", InputType::Base(BaseInputType::Enum(0), true))],
            directives: vec![],
            ruby_class_name: s("Schema::Filter"),
        }],
        custom_scalars: vec![],
    }
}

fn deprecated() -> DirectiveDefinition {
    DirectiveDefinition::new(
        s("deprecated"),
        vec![ivd("reason", InputType::Base(BaseInputType::BuiltinScalar(BuiltinScalar::String), false))],
        None,
        false,
        vec![s("FIELD_DEFINITION")],
        s("Bluejay::Builtin::Directives::Deprecated"),
    )
}

#[test]
fn written_enum_value_coerces_to_its_name() {
    let ty = InputType::Base(BaseInputType::Enum(0), true);
    let v = pv(ParserValueKind::Enum(s("BIG")), "BIG");
    match ty.coerce_parser_value(&schema(), &v, &vec![], &vec![], &vec![]) {
        Ok(Ok(RubyValue::String(name))) => assert_eq!(name, "BIG"),
        other => panic!("{:?}", other),
    }
}

#[test]
fn written_string_for_enum_is_an_error_showing_the_value() {
    let ty = InputType::Base(BaseInputType::Enum(0), true);
    let v = pv(ParserValueKind::String(s("BIG")), "\"BIG\"");
    match ty.coerce_parser_value(&schema(), &v, &vec![s("size")], &vec![], &vec![]) {
        Ok(Err(errors)) => {
            assert_eq!(errors.len(), 1);
            assert_eq!(errors[0].message(), "No implicit conversion of \"BIG\" to Size");
            assert_eq!(errors[0].path(), vec![s("size")]);
        }
        other => panic!("{:?}", other),
    }
}

#[test]
fn variable_stands_for_its_value_and_null_is_refused_for_required() {
    let ty = InputType::Base(BaseInputType::BuiltinScalar(BuiltinScalar::Int), true);
    let vars = vec![(s("n"), RubyValue::Integer(3)), (s("m"), RubyValue::Nil)];
    let v = pv(ParserValueKind::Variable(s("n")), "$n");
    assert!(matches!(ty.coerce_parser_value(&schema(), &v, &vec![], &vars, &vec![]), Ok(Ok(RubyValue::Integer(3)))));
    let m = pv(ParserValueKind::Variable(s("m")), "$m");
    match ty.coerce_parser_value(&schema(), &m, &vec![s("a")], &vars, &vec![]) {
        Ok(Err(errors)) => assert_eq!(errors[0].message(), "Received `null` for $m, which is invalid for Int!"),
        other => panic!("{:?}", other),
    }
    let missing = pv(ParserValueKind::Variable(s("x")), "$x");
    assert!(matches!(ty.coerce_parser_value(&schema(), &missing, &vec![], &vars, &vec![]), Ok(Ok(RubyValue::Nil))));
}

#[test]
fn written_list_elements_do_not_wrap() {
    let ty = InputType::List(Box::new(InputType::List(Box::new(InputType::Base(BaseInputType::BuiltinScalar(BuiltinScalar::Int), true)), true)), true);
    let v = pv(ParserValueKind::List(vec![pv(ParserValueKind::Integer("1".to_string()), "1")]), "[1]");
    match ty.coerce_parser_value(&schema(), &v, &vec![], &vec![], &vec![]) {
        Ok(Err(errors)) => {
            assert_eq!(errors[0].message(), "No implicit conversion of 1 to [Int!]!");
            assert_eq!(errors[0].path(), vec![s("0")]);
        }
        other => panic!("{:?}", other),
    }
}

#[test]
fn written_object_coerces_to_input_object() {
    let ty = InputType::Base(BaseInputType::InputObject(0), false);
    let v = pv(
        ParserValueKind::Object(vec![
            (s("size"), pv(ParserValueKind::Enum(s("BIG")), "BIG")),
            (s("color"), pv(ParserValueKind::Null, "null")),
        ]),
        "{size: BIG, color: null}",
    );
    match ty.coerce_parser_value(&schema(), &v, &vec![], &vec![], &vec![]) {
        Ok(Err(errors)) => {
            assert_eq!(errors.len(), 1);
            assert_eq!(errors[0].message(), "No field named `color` on Filter");
        }
        other => panic!("{:?}", other),
    }
}

#[test]
fn written_integer_coerces_to_float() {
    let ty = InputType::Base(BaseInputType::BuiltinScalar(BuiltinScalar::Float), true);
    let v = pv(ParserValueKind::Integer("2".to_string()), "2");
    assert!(matches!(
        ty.coerce_parser_value(&schema(), &v, &vec![], &vec![], &vec![]),
        Ok(Ok(RubyValue::Float(RubyFloat::FromInteger(2))))
    ));
}

#[test]
fn core_value_becomes_ruby_value() {
    let v = pv(
        ParserValueKind::Object(vec![
            (s("a"), pv(ParserValueKind::Enum(s("X")), "X")),
            (s("b"), pv(ParserValueKind::Variable(s("v")), "$v")),
        ]),
        "",
    );
    let r = value_from_core_value(&v, &vec![(s("v"), RubyValue::Boolean(true))]);
    match r {
        RubyValue::Hash(entries) => {
            assert_eq!(entries.len(), 2);
            assert!(matches!(&entries[0], (RubyValue::String(k), RubyValue::String(x)) if k == "a" && x == "X"));
            assert!(matches!(&entries[1], (RubyValue::String(k), RubyValue::Boolean(true)) if k == "b"));
        }
        other => panic!("{:?}", other),
    }
}

#[test]
fn field_definition_resolver_defaults_to_snake_case() {
    let fd = FieldDefinition::new(
        s("fullName"),
        OutputType::Base(BaseOutputType::BuiltinScalar(BuiltinScalar::String), true),
        vec![],
        None,
        vec![],
        None,
        None,
        &deprecated(),
    );
    assert_eq!(fd.ruby_resolver_method_name, "full_name");
    assert!(!fd.is_builtin);
    assert!(fd.extra_resolver_args.is_empty());
}

#[test]
fn introspection_field_gets_schema_class_and_is_builtin() {
    let fd = FieldDefinition::new(
        s("__schema"),
        OutputType::Base(BaseOutputType::Object(0), true),
        vec![],
        None,
        vec![],
        Some(s("schema_resolver")),
        None,
        &deprecated(),
    );
    assert!(fd.is_builtin);
    assert_eq!(fd.ruby_resolver_method_name, "schema_resolver");
    assert_eq!(fd.extra_resolver_args, vec![ExtraResolverArg::SchemaClass]);
    assert_eq!(fd.extra_resolver_args[0].kwarg_name(), "schema_class");
    assert_eq!(fd.resolver_arg_count(), 1);
}

#[test]
fn deprecation_adds_the_deprecated_directive() {
    let fd = FieldDefinition::new(
        s("old"),
        OutputType::Base(BaseOutputType::BuiltinScalar(BuiltinScalar::Int), false),
        vec![],
        None,
        vec![],
        None,
        Some(s("use new")),
        &deprecated(),
    );
    assert!(fd.is_deprecated());
    assert_eq!(fd.directives.len(), 1);
    assert_eq!(fd.directives[0].definition_name, "deprecated");
    assert_eq!(fd.directives[0].arguments[0].0, "reason");
    assert!(matches!(&fd.directives[0].arguments[0].1, RubyValue::String(r) if r == "use new"));
}

#[test]
fn input_value_ruby_name_defaults_to_snake_case() {
    let d = deprecated();
    let a = InputValueDefinition::new(s("firstName"), InputType::Base(BaseInputType::BuiltinScalar(BuiltinScalar::String), true), None, vec![], None, None, None, &d);
    assert_eq!(a.ruby_name, "first_name");
    assert!(a.is_required());
    let b = InputValueDefinition::new(s("firstName"), InputType::Base(BaseInputType::BuiltinScalar(BuiltinScalar::String), true), None, vec![], Some(s("given")), Some(RubyValue::String(s("x"))), None, &d);
    assert_eq!(b.ruby_name, "given");
    assert!(!b.is_required());
}

#[test]
fn builtin_directive_is_recognised_by_its_class() {
    assert!(deprecated().is_builtin);
    let custom = DirectiveDefinition::new(s("auth"), vec![], None, true, vec![], s("MyApp::Directives::Auth"));
    assert!(!custom.is_builtin);
}

#[test]
fn variable_type_keeps_list_wrappers() {
    let vt = DeclaredType::List(Box::new(DeclaredType::Named(s("Int"), true)), false);
    let t = InputType::from_parser_variable_type(&vt, BaseInputType::BuiltinScalar(BuiltinScalar::Int));
    assert_eq!(t, InputType::List(Box::new(InputType::Base(BaseInputType::BuiltinScalar(BuiltinScalar::Int), true)), false));
    assert_eq!(schema().display_name(&t), "[Int!]");
    assert_eq!(schema().sorbet_type(&t), "T.nilable(T::Array[Integer])");
}

#[test]
fn need_custom_scalar_is_not_an_error_of_the_value() {
    let mut sc = schema();
    sc.custom_scalars.push(bluejay_rb::input_schema::CustomScalarTypeDefinition {
        name: s("Url"),
        description: None,
        directives: vec![],
        specified_by_url: None,
        ruby_class_name: s("Url"),
        internal_representation_sorbet_type_name: s("URI"),
        input_coercion_method_signature: bluejay_rb::input_schema::CoercionMethodSignature::Exception,
        result_coercion_method_signature: bluejay_rb::input_schema::CoercionMethodSignature::Exception,
    });
    let ty = InputType::Base(BaseInputType::CustomScalar(0), true);
    let v = pv(ParserValueKind::String(s("http://x")), "\"http://x\"");
    match ty.coerce_parser_value(&sc, &v, &vec![s("u")], &vec![], &vec![]) {
        Err(CoercionFailure::NeedCustomScalar { value: RubyValue::String(x), .. }) => assert_eq!(x, "http://x"),
        other => panic!("{:?}", other),
    }
}

#[test]
fn written_integers_outside_32_bits_are_refused() {
    let ty = InputType::Base(BaseInputType::BuiltinScalar(BuiltinScalar::Int), true);
    let big = pv(ParserValueKind::Integer("2147483648".to_string()), "2147483648");
    match ty.coerce_parser_value(&schema(), &big, &vec![s("a")], &vec![], &vec![]) {
        Ok(Err(errors)) => {
            assert_eq!(errors.len(), 1);
            assert_eq!(errors[0].message(), "Integer values must fit within 32 bits signed");
            assert_eq!(errors[0].path(), vec![s("a")]);
        }
        other => panic!("{:?}", other),
    }
    let least = pv(ParserValueKind::Integer("-2147483648".to_string()), "-2147483648");
    assert!(matches!(
        ty.coerce_parser_value(&schema(), &least, &vec![], &vec![], &vec![]),
        Ok(Ok(RubyValue::Integer(-2147483648)))
    ));
}

#[test]
fn integer_literals_are_read_within_32_bits() {
    assert_eq!(literal_i32("0"), Some(0));
    assert_eq!(literal_i32("-0"), Some(0));
    assert_eq!(literal_i32("2147483647"), Some(2147483647));
    assert_eq!(literal_i32("-2147483649"), None);
    assert_eq!(literal_i32("99999999999999999999999"), None);
    assert_eq!(literal_i32("01"), None);
    assert_eq!(literal_i32("1.5"), None);
    assert_eq!(literal_i32(""), None);
}

#[test]
fn declared_types_are_read_from_their_text() {
    assert!(matches!(declared_type(": Int"), Some(DeclaredType::Named(n, false)) if n == "Int"));
    assert!(matches!(declared_type(":Int! = 3"), Some(DeclaredType::Named(n, true)) if n == "Int"));
    match declared_type(" :\n[ Foo ] ! @dir") {
        Some(DeclaredType::List(inner, true)) => {
            assert!(matches!(inner.as_ref(), DeclaredType::Named(n, false) if n == "Foo"))
        }
        other => panic!("{:?}", other),
    }
    assert!(declared_type("Int").is_none());
    assert!(declared_type(": [Int").is_none());
    assert!(declared_type(": 3").is_none());
}

#[test]
fn a_single_written_value_coerces_as_its_one_element_list() {
    let ty = InputType::List(Box::new(InputType::Base(BaseInputType::BuiltinScalar(BuiltinScalar::Int), true)), true);
    let five = pv(ParserValueKind::Integer("5".to_string()), "5");
    let listed = pv(ParserValueKind::List(vec![pv(ParserValueKind::Integer("5".to_string()), "5")]), "[5]");
    for (v, implicit) in [(&five, true), (&listed, true), (&listed, false)] {
        match coerce_parser(&schema(), &ty, v, &vec![], &vec![], implicit, &vec![]) {
            Ok(Ok(RubyValue::Array(items))) => {
                assert_eq!(items.len(), 1);
                assert!(matches!(items[0], RubyValue::Integer(5)));
            }
            other => panic!("{:?}", other),
        }
    }
    match coerce_parser(&schema(), &ty, &five, &vec![s("a")], &vec![], false, &vec![]) {
        Ok(Err(errors)) => {
            assert_eq!(errors.len(), 1);
            assert_eq!(errors[0].message(), "No implicit conversion of 5 to [Int!]!");
            assert_eq!(errors[0].path(), vec![s("a")]);
        }
        other => panic!("{:?}", other),
    }
}
