use bluejay_rb::inner_value::{coerce_input_object_wrapped, inner_of, InnerValue};
use bluejay_rb::input_coercion::{CoercionFailure, ScalarCallEvent, ScalarOutcome};
use bluejay_rb::input_schema::{
    BaseInputType, CoercionMethodSignature, CustomScalarTypeDefinition, EnumTypeDefinition, EnumValueDefinition,
    InputObjectTypeDefinition, InputSchema, InputType, InputValueDefinition,
};
use bluejay_rb::ruby_value::{RubyFloat, RubyValue};
use bluejay_rb::scalar::BuiltinScalar;

fn s(x: &str) -> String {
    x.to_string()
}

fn enum_value(name: &str) -> EnumValueDefinition {
    EnumValueDefinition { name: s(name), description: None, directives: vec![], deprecation_reason: None }
}

fn field(name: &str, ruby_name: &str, ty: InputType, default_value: Option<RubyValue>) -> InputValueDefinition {
    InputValueDefinition {
        name: s(name),
        description: None,
        input_type: ty,
        directives: vec![],
        default_value,
        default_inner: None,
        ruby_name: s(ruby_name),
        deprecation_reason: None,
    }
}

fn schema() -> InputSchema {
    InputSchema {
        enums: vec![EnumTypeDefinition {
            name: s("Color"),
            description: None,
            enum_value_definitions: vec![enum_value("RED"), enum_value("GREEN")],
            directives: vec![],
            ruby_class_name: s("Schema::Color"),
        }],
        input_objects: vec![InputObjectTypeDefinition {
            name: s("PointInput"),
            description: None,
            input_field_definitions: vec![
                field("xCoord", "x_coord", InputType::Base(BaseInputType::BuiltinScalar(BuiltinScalar::Int), true), None),
                field(
                    "label",
                    "label",
                    InputType::Base(BaseInputType::BuiltinScalar(BuiltinScalar::String), false),
                    Some(RubyValue::String(s("origin"))),
                ),
            ],
            directives: vec![],
            ruby_class_name: s("Schema::PointInput"),
        }],
        custom_scalars: vec![CustomScalarTypeDefinition {
            name: s("Date"),
            description: None,
            directives: vec![],
            specified_by_url: None,
            ruby_class_name: s("Schema::Date"),
            internal_representation_sorbet_type_name: s("Date"),
            input_coercion_method_signature: CoercionMethodSignature::Result,
            result_coercion_method_signature: CoercionMethodSignature::Result,
        }],
    }
}

fn int_type(required: bool) -> InputType {
    InputType::Base(BaseInputType::BuiltinScalar(BuiltinScalar::Int), required)
}

fn messages(r: &Result<Result<RubyValue, Vec<bluejay_rb::coercion_error::CoercionError>>, CoercionFailure>) -> Vec<(String, Vec<String>)> {
    match r {
        Ok(Err(errors)) => errors.iter().map(|e| (e.message().to_string(), e.path())).collect(),
        _ => panic!("expected coercion errors, got {:?}", r),
    }
}

fn value(r: Result<Result<RubyValue, Vec<bluejay_rb::coercion_error::CoercionError>>, CoercionFailure>) -> RubyValue {
    match r {
        Ok(Ok(v)) => v,
        other => panic!("expected a value, got {:?}", other),
    }
}

#[test]
fn int_in_range_is_kept() {
    let v = int_type(true).coerce_ruby_const_value(&schema(), &RubyValue::Integer(42), &vec![], &vec![]);
    assert!(matches!(value(v), RubyValue::Integer(42)));
}

#[test]
fn int_out_of_32_bits_is_an_error() {
    let r = int_type(true).coerce_ruby_const_value(&schema(), &RubyValue::Integer(1i64 << 31), &vec![s("n")], &vec![]);
    assert_eq!(messages(&r), vec![(s("Integer values must fit within 32 bits signed"), vec![s("n")])]);
}

#[test]
fn string_for_int_names_its_kind() {
    let r = int_type(true).coerce_ruby_const_value(&schema(), &RubyValue::String(s("x")), &vec![], &vec![]);
    assert_eq!(messages(&r), vec![(s("No implicit conversion of string to integer"), vec![])]);
}

#[test]
fn integer_coerces_to_float() {
    let ty = InputType::Base(BaseInputType::BuiltinScalar(BuiltinScalar::Float), true);
    let v = value(ty.coerce_ruby_const_value(&schema(), &RubyValue::Integer(3), &vec![], &vec![]));
    assert!(matches!(v, RubyValue::Float(RubyFloat::FromInteger(3))));
}

#[test]
fn infinite_float_is_an_error() {
    let ty = InputType::Base(BaseInputType::BuiltinScalar(BuiltinScalar::Float), true);
    let inf = RubyValue::Float(RubyFloat::Bits(f64::INFINITY.to_bits()));
    let r = ty.coerce_ruby_const_value(&schema(), &inf, &vec![], &vec![]);
    assert_eq!(messages(&r), vec![(s("Float values must be finite"), vec![])]);
}

#[test]
fn nil_for_required_type_is_an_error_and_nil_for_nullable_is_nil() {
    let r = int_type(true).coerce_ruby_const_value(&schema(), &RubyValue::Nil, &vec![s("a")], &vec![]);
    assert_eq!(messages(&r), vec![(s("Got null when a non-null value was expected"), vec![s("a")])]);
    assert!(matches!(value(int_type(false).coerce_ruby_const_value(&schema(), &RubyValue::Nil, &vec![], &vec![])), RubyValue::Nil));
}

#[test]
fn enum_member_and_missing_member() {
    let ty = InputType::Base(BaseInputType::Enum(0), true);
    let ok = value(ty.coerce_ruby_const_value(&schema(), &RubyValue::String(s("RED")), &vec![], &vec![]));
    assert!(matches!(ok, RubyValue::String(ref x) if x == "RED"));
    let r = ty.coerce_ruby_const_value(&schema(), &RubyValue::String(s("BLUE")), &vec![], &vec![]);
    assert_eq!(messages(&r), vec![(s("No member `BLUE` on Color"), vec![])]);
}

#[test]
fn scalar_becomes_list_of_one_at_the_top() {
    let ty = InputType::List(Box::new(int_type(true)), true);
    let v = value(ty.coerce_ruby_const_value(&schema(), &RubyValue::Integer(7), &vec![], &vec![]));
    match v {
        RubyValue::Array(items) => assert!(matches!(items.as_slice(), [RubyValue::Integer(7)])),
        other => panic!("{:?}", other),
    }
}

#[test]
fn list_element_errors_carry_their_index() {
    let ty = InputType::List(Box::new(int_type(true)), true);
    let arr = RubyValue::Array(vec![RubyValue::Integer(1), RubyValue::Nil, RubyValue::String(s("x"))]);
    let r = ty.coerce_ruby_const_value(&schema(), &arr, &vec![s("ids")], &vec![]);
    assert_eq!(
        messages(&r),
        vec![
            (s("Got null when a non-null value was expected"), vec![s("ids"), s("1")]),
            (s("No implicit conversion of string to integer"), vec![s("ids"), s("2")]),
        ]
    );
}

#[test]
fn nested_list_without_implicit_wrapping_is_an_error() {
    let ty = InputType::List(Box::new(InputType::List(Box::new(int_type(true)), true)), true);
    let arr = RubyValue::Array(vec![RubyValue::Integer(1)]);
    let r = ty.coerce_ruby_const_value(&schema(), &arr, &vec![], &vec![]);
    assert_eq!(messages(&r), vec![(s("No implicit conversion of integer to [Int!]!"), vec![s("0")])]);
}

#[test]
fn input_object_from_hash_with_default() {
    let ty = InputType::Base(BaseInputType::InputObject(0), true);
    let hash = RubyValue::Hash(vec![(RubyValue::String(s("xCoord")), RubyValue::Integer(5))]);
    let v = value(ty.coerce_ruby_const_value(&schema(), &hash, &vec![], &vec![]));
    match v {
        RubyValue::InputObject { class_name, args } => {
            assert_eq!(class_name, "Schema::PointInput");
            assert_eq!(args.len(), 2);
            assert_eq!(args[0].0, "x_coord");
            assert!(matches!(args[0].1, RubyValue::Integer(5)));
            assert_eq!(args[1].0, "label");
            assert!(matches!(args[1].1, RubyValue::String(ref l) if l == "origin"));
        }
        other => panic!("{:?}", other),
    }
}

#[test]
fn input_object_missing_field_and_unknown_key() {
    let ty = InputType::Base(BaseInputType::InputObject(0), true);
    let hash = RubyValue::Hash(vec![(RubyValue::String(s("z")), RubyValue::Integer(5))]);
    let r = ty.coerce_ruby_const_value(&schema(), &hash, &vec![s("p")], &vec![]);
    assert_eq!(
        messages(&r),
        vec![
            (s("No value for required field xCoord"), vec![s("p")]),
            (s("No field named `z` on PointInput"), vec![s("p")]),
        ]
    );
}

#[test]
fn symbol_key_is_a_ruby_error() {
    let ty = InputType::Base(BaseInputType::InputObject(0), true);
    let hash = RubyValue::Hash(vec![
        (RubyValue::String(s("xCoord")), RubyValue::Integer(5)),
        (RubyValue::Symbol(s("z")), RubyValue::Integer(5)),
    ]);
    match ty.coerce_ruby_const_value(&schema(), &hash, &vec![], &vec![]) {
        Err(CoercionFailure::RubyError(m)) => assert_eq!(m, "no implicit conversion of Symbol into String"),
        other => panic!("{:?}", other),
    }
}

#[test]
fn custom_scalar_asks_for_its_coercion_then_uses_the_outcome() {
    let ty = InputType::Base(BaseInputType::CustomScalar(0), true);
    let raw = RubyValue::String(s("2024-01-01"));
    match ty.coerce_ruby_const_value(&schema(), &raw, &vec![s("d")], &vec![]) {
        Err(CoercionFailure::NeedCustomScalar { scalar, path, .. }) => {
            assert_eq!(scalar, 0);
            assert_eq!(path, vec![s("d")]);
        }
        other => panic!("{:?}", other),
    }
    let outcomes = vec![ScalarOutcome {
        path: vec![s("d")],
        event: ScalarCallEvent::Returned {
            value: RubyValue::Opaque { class_name: s("Bluejay::Result"), handle: 1, finite_float: false },
            result: Some(Err(RubyValue::String(s("bad date")))),
        },
    }];
    let r = ty.coerce_ruby_const_value(&schema(), &raw, &vec![s("d")], &outcomes);
    assert_eq!(messages(&r), vec![(s("bad date"), vec![s("d")])]);
}

#[test]
fn custom_scalar_returning_a_non_result_is_a_ruby_error() {
    let ty = InputType::Base(BaseInputType::CustomScalar(0), true);
    let outcomes = vec![ScalarOutcome {
        path: vec![],
        event: ScalarCallEvent::Returned { value: RubyValue::Integer(1), result: None },
    }];
    match ty.coerce_ruby_const_value(&schema(), &RubyValue::Integer(1), &vec![], &outcomes) {
        Err(CoercionFailure::RubyError(m)) => {
            assert_eq!(m, "TypeError: no implicit conversion of Integer into Bluejay::Result")
        }
        other => panic!("{:?}", other),
    }
}

#[test]
fn wrapped_coercion_wraps_at_every_depth() {
    let ty = InputType::List(Box::new(InputType::List(Box::new(int_type(true)), true)), true);
    match ty.coerced_ruby_value_to_wrapped_value(&schema(), &RubyValue::Integer(4), &vec![], &vec![]) {
        Ok(Ok((v, inner))) => {
            match v {
                RubyValue::Array(outer) => match outer.as_slice() {
                    [RubyValue::Array(items)] => assert!(matches!(items.as_slice(), [RubyValue::Integer(4)])),
                    other => panic!("{:?}", other),
                },
                other => panic!("{:?}", other),
            }
            match inner {
                InnerValue::List(outer) => match outer.as_slice() {
                    [InnerValue::List(items)] => assert!(matches!(items.as_slice(), [InnerValue::Integer(4)])),
                    other => panic!("{:?}", other),
                },
                other => panic!("{:?}", other),
            }
        }
        other => panic!("{:?}", other),
    }
}

#[test]
fn wrapped_enum_values_are_enum_values() {
    let ty = InputType::Base(BaseInputType::Enum(0), true);
    match ty.coerced_ruby_value_to_wrapped_value(&schema(), &RubyValue::String(s("RED")), &vec![], &vec![]) {
        Ok(Ok((RubyValue::String(v), InnerValue::Enum(e)))) => {
            assert_eq!(v, "RED");
            assert_eq!(e, "RED");
        }
        other => panic!("{:?}", other),
    }
    let list = InputType::List(Box::new(ty), false);
    let given = RubyValue::Array(vec![RubyValue::String(s("GREEN")), RubyValue::Nil]);
    match list.coerced_ruby_value_to_wrapped_value(&schema(), &given, &vec![], &vec![]) {
        Ok(Err(errors)) => assert_eq!(errors[0].message(), "Got null when a non-null value was expected"),
        other => panic!("{:?}", other),
    }
}

#[test]
fn wrapped_input_objects_keep_the_given_value() {
    let given = RubyValue::Hash(vec![(RubyValue::String(s("xCoord")), RubyValue::Integer(1))]);
    match coerce_input_object_wrapped(&schema(), 0, &given, &vec![], &vec![]) {
        Ok(Ok((RubyValue::InputObject { class_name, args }, InnerValue::Object(fields)))) => {
            assert_eq!(class_name, "Schema::PointInput");
            assert_eq!(args.len(), 2);
            assert_eq!(fields.len(), 1);
            assert_eq!(fields[0].0, "xCoord");
            assert!(matches!(fields[0].1, InnerValue::Integer(1)));
        }
        other => panic!("{:?}", other),
    }
}

#[test]
fn a_custom_scalar_given_a_value_graphql_has_none_for_fails() {
    let ty = InputType::Base(BaseInputType::CustomScalar(0), true);
    let outcomes = vec![ScalarOutcome {
        path: vec![],
        event: ScalarCallEvent::Returned {
            value: RubyValue::Opaque { class_name: s("Bluejay::Result"), handle: 1, finite_float: false },
            result: Some(Ok(RubyValue::String(s("today")))),
        },
    }];
    match ty.coerced_ruby_value_to_wrapped_value(&schema(), &RubyValue::Symbol(s("today")), &vec![], &outcomes) {
        Err(CoercionFailure::RubyError(m)) => assert_eq!(m, "no implicit conversion of Symbol into Value"),
        other => panic!("{:?}", other),
    }
    match ty.coerced_ruby_value_to_wrapped_value(&schema(), &RubyValue::String(s("2024-01-01")), &vec![], &outcomes) {
        Ok(Ok((RubyValue::String(v), InnerValue::String(i)))) => {
            assert_eq!(v, "today");
            assert_eq!(i, "2024-01-01");
        }
        other => panic!("{:?}", other),
    }
}

#[test]
fn inner_values_follow_the_ruby_kinds() {
    let v = RubyValue::Array(vec![RubyValue::Nil, RubyValue::Boolean(true), RubyValue::String(s("a"))]);
    match inner_of(&v) {
        Ok(InnerValue::List(items)) => {
            assert!(matches!(items.as_slice(), [InnerValue::Null, InnerValue::Boolean(true), InnerValue::String(t)] if t == "a"))
        }
        other => panic!("{:?}", other),
    }
    assert!(inner_of(&RubyValue::Hash(vec![(RubyValue::Integer(1), RubyValue::Nil)])).is_err());
}

#[test]
fn id_accepts_strings_and_integers() {
    let ty = InputType::Base(BaseInputType::BuiltinScalar(BuiltinScalar::ID), true);
    assert!(matches!(value(ty.coerce_ruby_const_value(&schema(), &RubyValue::Integer(9), &vec![], &vec![])), RubyValue::Integer(9)));
    let r = ty.coerce_ruby_const_value(&schema(), &RubyValue::Boolean(true), &vec![], &vec![]);
    assert_eq!(messages(&r), vec![(s("No implicit conversion of boolean to ID"), vec![])]);
}
