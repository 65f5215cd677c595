use bluejay_rb::definitions::DirectiveDefinition;
use bluejay_rb::errors::{ErrorLocation, ExecutionError};
use bluejay_rb::input_coercion::ScalarCallEvent;
use bluejay_rb::input_schema::{
    BaseInputType, CoercionMethodSignature, CustomScalarTypeDefinition, InputSchema, InputType, InputValueDefinition,
};
use bluejay_rb::introspection::TypeKind;
use bluejay_rb::output_schema::{
    BaseOutputType, ObjectTypeDefinition, OutputType, SchemaDefinition, UnionTypeDefinition,
};
use bluejay_rb::path::{Path, PathElement};
use bluejay_rb::resolver_strategy::ResolverStrategy;
use bluejay_rb::result_coercion::{custom_scalar_result, FieldError};
use bluejay_rb::ruby_value::{public_name, RubyFloat, RubyValue};
use bluejay_rb::scalar::BuiltinScalar;
use bluejay_rb::warden::{VisibilityAction, Warden};

fn s(x: &str) -> String {
    x.to_string()
}

fn object(name: &str, class: &str) -> ObjectTypeDefinition {
    ObjectTypeDefinition::new(s(name), vec![], vec![], None, vec![], s(class))
}

fn schema() -> SchemaDefinition {
    SchemaDefinition {
        input: InputSchema { enums: vec![], input_objects: vec![], custom_scalars: vec![] },
        objects: vec![object("Cat", "Schema::Cat"), object("Dog", "Schema::Dog"), object("__Type", "Bluejay::Builtin::ObjectTypes::Type")],
        interfaces: vec![],
        unions: vec![UnionTypeDefinition {
            name: s("Pet"),
            description: None,
            member_types: vec![0, 1],
            directives: vec![],
            ruby_class_name: s("Schema::Pet"),
        }],
        directives: vec![],
        query: 0,
        mutation: None,
        ruby_class_name: s("Schema"),
    }
}

#[test]
fn union_sorbet_type_joins_its_members() {
    let sc = schema();
    assert_eq!(sc.union_sorbet_type(0), "T.any(Schema::Cat, Schema::Dog)");
    let ty = OutputType::List(Box::new(OutputType::Base(BaseOutputType::Union(0), true)), false);
    assert_eq!(sc.output_sorbet_type(&ty), "T.nilable(T::Array[T.any(Schema::Cat, Schema::Dog)])");
    let obj = OutputType::Base(BaseOutputType::Object(1), true);
    assert_eq!(sc.output_sorbet_type(&obj), "Schema::Dog::Interface");
}

#[test]
fn builtin_object_type_is_recognised_by_its_class() {
    let sc = schema();
    assert!(!sc.objects[0].is_builtin);
    assert!(sc.objects[2].is_builtin);
    assert!(sc.contains_type(0, 1));
    assert!(!sc.contains_type(0, 2));
}

#[test]
fn type_kind_names() {
    assert_eq!(TypeKind::InputObject.name(), "INPUT_OBJECT");
    assert_eq!(TypeKind::NonNull.name(), "NON_NULL");
    assert_eq!(TypeKind::Scalar.name(), "SCALAR");
}

#[test]
fn introspection_of_input_types() {
    let required = InputType::Base(BaseInputType::BuiltinScalar(BuiltinScalar::Int), true);
    assert_eq!(required.kind(), TypeKind::NonNull);
    let inner = required.of_type().unwrap();
    assert_eq!(inner, InputType::Base(BaseInputType::BuiltinScalar(BuiltinScalar::Int), false));
    assert_eq!(inner.kind(), TypeKind::Scalar);
    assert_eq!(inner.of_type(), None);
    let list = InputType::List(Box::new(inner), false);
    assert_eq!(list.kind(), TypeKind::List);
    let output = OutputType::Base(BaseOutputType::Union(0), false);
    assert_eq!(output.kind(), TypeKind::Union);
}

#[test]
fn resolver_strategy_defaults_to_object() {
    assert_eq!(ResolverStrategy::default(), ResolverStrategy::Object);
}

#[test]
fn warden_keeps_the_first_error_and_its_answers() {
    let mut w = Warden::new();
    assert_eq!(w.cached("admin"), None);
    assert!(w.record_visibility(s("admin"), Ok(true)));
    assert_eq!(w.cached("admin"), Some(true));
    assert!(!w.record_visibility(s("beta"), Err(s("first"))));
    assert!(!w.cache_key_failed(s("second")));
    assert_eq!(w.to_result(), Err(s("first")));
    assert_eq!(w.to_result(), Ok(()));
}

#[test]
fn execution_error_hash_has_path_message_and_locations() {
    let e = ExecutionError::new(s("oops"), Some(vec![s("a"), s("0")]), Some(vec![ErrorLocation::new(3, 4)]));
    match e.to_h() {
        RubyValue::Hash(entries) => {
            assert_eq!(entries.len(), 3);
            assert!(matches!(&entries[0], (RubyValue::String(k), RubyValue::Array(p)) if k == "path" && p.len() == 2));
            assert!(matches!(&entries[1], (RubyValue::String(k), RubyValue::String(m)) if k == "message" && m == "oops"));
            match &entries[2] {
                (RubyValue::String(k), RubyValue::Array(locs)) => {
                    assert_eq!(k, "locations");
                    match &locs[0] {
                        RubyValue::Hash(l) => {
                            assert!(matches!(&l[0], (RubyValue::String(k), RubyValue::Integer(3)) if k == "line"));
                            assert!(matches!(&l[1], (RubyValue::String(k), RubyValue::Integer(4)) if k == "column"));
                        }
                        other => panic!("{:?}", other),
                    }
                }
                other => panic!("{:?}", other),
            }
        }
        other => panic!("{:?}", other),
    }
    let bare = ExecutionError::new(s("x"), None, None);
    match bare.to_h() {
        RubyValue::Hash(entries) => {
            assert_eq!(entries.len(), 2);
            assert!(matches!(&entries[0], (_, RubyValue::Nil)));
        }
        other => panic!("{:?}", other),
    }
}

#[test]
fn result_coercion_of_builtin_scalars() {
    assert!(BuiltinScalar::Int.coerce_result(&RubyValue::Integer(5)).is_ok());
    assert!(BuiltinScalar::Int.coerce_result(&RubyValue::Integer(1i64 << 40)).is_err());
    assert!(BuiltinScalar::ID.coerce_result(&RubyValue::String(s("x"))).is_ok());
    assert!(BuiltinScalar::Float.coerce_result(&RubyValue::Integer(2)).is_ok());
    assert!(BuiltinScalar::Float.coerce_result(&RubyValue::Float(RubyFloat::Bits(f64::NAN.to_bits()))).is_err());
    let decimal = RubyValue::Opaque { class_name: s("BigDecimal"), handle: 7, finite_float: true };
    assert!(BuiltinScalar::Float.coerce_result(&decimal).is_ok());
    assert!(BuiltinScalar::Boolean.coerce_result(&RubyValue::Nil).is_err());
}

#[test]
fn custom_scalar_result_outcomes() {
    let raised = ScalarCallEvent::Raised { declared: true, message: s("not a date") };
    match custom_scalar_result(CoercionMethodSignature::Exception, &raised) {
        Err(FieldError::CannotCoerceResultToCustomScalar { message }) => assert_eq!(message, "not a date"),
        other => panic!("{:?}", other),
    }
    match custom_scalar_result(CoercionMethodSignature::Result, &raised) {
        Err(FieldError::ApplicationError(message)) => assert_eq!(message, "not a date"),
        other => panic!("{:?}", other),
    }
    let returned = ScalarCallEvent::Returned { value: RubyValue::Nil, result: None };
    match custom_scalar_result(CoercionMethodSignature::Result, &returned) {
        Err(e) => assert_eq!(e.message(), "Application error: TypeError: no implicit conversion of NilClass into Bluejay::Result"),
        other => panic!("{:?}", other),
    }
}

#[test]
fn custom_scalar_with_url_gets_specified_by() {
    let specified_by = DirectiveDefinition::new(
        s("specifiedBy"),
        vec![InputValueDefinition {
            name: s("url"),
            description: None,
            input_type: InputType::Base(BaseInputType::BuiltinScalar(BuiltinScalar::String), true),
            directives: vec![],
            default_value: None,
            default_inner: None,
            ruby_name: s("url"),
            deprecation_reason: None,
        }],
        None,
        false,
        vec![s("SCALAR")],
        s("Bluejay::Builtin::Directives::SpecifiedBy"),
    );
    let c = CustomScalarTypeDefinition::new(
        s("Url"),
        None,
        vec![],
        Some(s("https://example.com/url")),
        s("Schema::Url"),
        s("URI"),
        CoercionMethodSignature::Exception,
        CoercionMethodSignature::Exception,
        &specified_by,
    );
    assert_eq!(c.directives.len(), 1);
    assert_eq!(c.directives[0].definition_name, "specifiedBy");
    assert!(matches!(&c.directives[0].arguments[0].1, RubyValue::String(u) if u == "https://example.com/url"));
}

#[test]
fn public_names_of_values() {
    assert_eq!(public_name(&RubyValue::Nil), "null");
    assert_eq!(public_name(&RubyValue::Array(vec![])), "list");
    assert_eq!(public_name(&RubyValue::Hash(vec![])), "object");
    assert_eq!(public_name(&RubyValue::Symbol(s("a"))), "unknown");
}

#[test]
fn path_append_puts_the_new_element_first() {
    let root = Path::default();
    assert!(root.to_vec().is_empty());
    let p = Path::new(PathElement::Key("a"));
    let q = p.append(PathElement::Index(10));
    assert_eq!(q.to_vec(), vec![s("10"), s("a")]);
    assert_eq!(p.to_vec(), vec![s("a")]);
}

#[test]
fn warden_asks_visibility_once_per_key() {
    let mut w = Warden::new();
    assert!(matches!(w.evaluate_visibility(None), VisibilityAction::Decided(true)));
    match w.evaluate_visibility(Some(Ok(s("admin")))) {
        VisibilityAction::AskVisible(key) => {
            assert_eq!(key, "admin");
            assert!(!w.record_visibility(key, Ok(false)));
        }
        other => panic!("{:?}", other),
    }
    assert!(matches!(w.evaluate_visibility(Some(Ok(s("admin")))), VisibilityAction::Decided(false)));
    assert!(matches!(w.evaluate_visibility(Some(Err(s("no key")))), VisibilityAction::Decided(false)));
    assert!(matches!(w.evaluate_visibility(Some(Ok(s("other")))), VisibilityAction::AskVisible(_)));
    assert_eq!(w.to_result(), Err(s("no key")));
}
