use bluejay_rb::input_schema::EnumValueDefinition;
use bluejay_rb::introspection::{listed_enum_values, listed_fields};
use bluejay_rb::input_schema::{BaseInputType, InputSchema, InputType};
use bluejay_rb::output_schema::{
    BaseOutputType, InterfaceTypeDefinition, ObjectTypeDefinition, OutputType, SchemaDefinition,
};
use bluejay_rb::r_result::RResult;
use bluejay_rb::ruby_value::RubyValue;
use bluejay_rb::scalar::BuiltinScalar;
use bluejay_rb::schema_visitor::{str_lt, SchemaItem, SchemaVisitor};

fn s(x: &str) -> String {
    x.to_string()
}

fn names(v: &SchemaVisitor) -> Vec<String> {
    v.types.iter().map(|d| d.name.clone()).collect()
}

#[test]
fn names_order_as_strings_do() {
    assert!(str_lt("Apple", "Banana"));
    assert!(!str_lt("Banana", "Apple"));
    assert!(str_lt("Query", "QueryRoot"));
    assert!(!str_lt("Query", "Query"));
    assert!(str_lt("Zebra", "apple"));
    assert!(str_lt("", "a"));
    assert!(!str_lt("a", ""));
}

#[test]
fn walk_registers_every_type_once_in_name_order() {
    let roots = vec![SchemaItem::Type(1)];
    let mut v = SchemaVisitor::new(&roots);
    assert_eq!(v.next_item(), Some(SchemaItem::Type(1)));
    let r = v.visit_type(1, s("QueryRoot"), s("Schema::QueryRoot"), &vec![SchemaItem::Type(2), SchemaItem::Type(3), SchemaItem::Directive(9)]);
    assert_eq!(r, Ok(true));
    // the first reference is looked at first
    assert_eq!(v.next_item(), Some(SchemaItem::Type(2)));
    assert_eq!(v.visit_type(2, s("Cat"), s("Schema::Cat"), &vec![SchemaItem::Type(1)]), Ok(true));
    assert_eq!(v.next_item(), Some(SchemaItem::Type(1)));
    // the same definition again changes nothing
    assert_eq!(v.visit_type(1, s("QueryRoot"), s("Schema::QueryRoot"), &vec![SchemaItem::Type(2)]), Ok(false));
    assert_eq!(v.next_item(), Some(SchemaItem::Type(3)));
    assert_eq!(v.visit_type(3, s("Dog"), s("Schema::Dog"), &vec![]), Ok(true));
    assert_eq!(v.next_item(), Some(SchemaItem::Directive(9)));
    assert!(v.visit_directive(9, s("deprecated"), s("Schema::Deprecated")));
    assert!(!v.visit_directive(10, s("deprecated"), s("Other::Deprecated")));
    assert_eq!(v.next_item(), None);
    assert_eq!(names(&v), vec![s("Cat"), s("Dog"), s("QueryRoot")]);
    assert_eq!(v.directives.len(), 1);
    assert_eq!(v.directives[0].handle, 9);
}

#[test]
fn two_classes_for_one_type_name_are_refused() {
    let mut v = SchemaVisitor::new(&vec![]);
    assert_eq!(v.visit_type(1, s("Cat"), s("Schema::Cat"), &vec![]), Ok(true));
    let r = v.visit_type(2, s("Cat"), s("Other::Cat"), &vec![SchemaItem::Type(5)]);
    assert_eq!(r, Err(s("GraphQL type name `Cat` is used in multiple classes: Schema::Cat and Other::Cat")));
    assert_eq!(v.types.len(), 1);
    assert_eq!(v.next_item(), None);
}

#[test]
fn roots_come_off_in_their_order() {
    let roots = vec![SchemaItem::Type(1), SchemaItem::Type(2), SchemaItem::Directive(3)];
    let mut v = SchemaVisitor::new(&roots);
    assert_eq!(v.next_item(), Some(SchemaItem::Type(1)));
    assert_eq!(v.next_item(), Some(SchemaItem::Type(2)));
    assert_eq!(v.next_item(), Some(SchemaItem::Directive(3)));
    assert_eq!(v.next_item(), None);
}

#[test]
fn unwrap_list_gives_the_element_type() {
    let inner = InputType::Base(BaseInputType::BuiltinScalar(BuiltinScalar::Int), true);
    let list = InputType::List(Box::new(inner.duplicate()), false);
    assert_eq!(list.unwrap_list(), Ok(inner));
    let base = InputType::Base(BaseInputType::BuiltinScalar(BuiltinScalar::Int), true);
    assert_eq!(base.unwrap_list(), Err(s("Tried to unwrap a non-list InputTypeReference")));
    let out = OutputType::List(Box::new(OutputType::Base(BaseOutputType::Object(0), true)), true);
    assert_eq!(out.unwrap_list(), Ok(OutputType::Base(BaseOutputType::Object(0), true)));
    let out_base = OutputType::Base(BaseOutputType::Object(0), true);
    assert_eq!(out_base.unwrap_list(), Err(s("Tried to unwrap a non-list OutputType")));
}

fn object(name: &str, interfaces: Vec<usize>) -> ObjectTypeDefinition {
    ObjectTypeDefinition::new(s(name), vec![], interfaces, None, vec![], format!("Schema::{}", name))
}

fn interface(name: &str) -> InterfaceTypeDefinition {
    InterfaceTypeDefinition {
        name: s(name),
        description: None,
        field_definitions: vec![],
        interface_implementations: vec![],
        directives: vec![],
        ruby_class_name: format!("Schema::{}", name),
    }
}

#[test]
fn interface_implementors_in_object_order() {
    let sc = SchemaDefinition {
        input: InputSchema { enums: vec![], input_objects: vec![], custom_scalars: vec![] },
        objects: vec![object("Cat", vec![0, 1]), object("Query", vec![]), object("Dog", vec![0])],
        interfaces: vec![interface("Pet"), interface("Named")],
        unions: vec![],
        directives: vec![],
        query: 1,
        mutation: None,
        ruby_class_name: s("Schema"),
    };
    assert_eq!(sc.interface_implementors(0), vec![0, 2]);
    assert_eq!(sc.interface_implementors(1), vec![0]);
}

#[test]
fn result_values_and_their_refusals() {
    let ok = RResult::ok(RubyValue::Integer(1));
    assert!(ok.is_ok());
    assert!(!ok.is_err());
    assert!(matches!(ok.unwrap(), Ok(RubyValue::Integer(1))));
    assert!(matches!(ok.unwrap_err(), Err(m) if m == "Ok variant does not have an error value"));
    let err = RResult::err(RubyValue::String(s("bad")));
    assert!(err.is_err());
    assert!(matches!(err.unwrap_err(), Ok(RubyValue::String(b)) if b == "bad"));
    assert!(matches!(err.unwrap(), Err(m) if m == "Error variant does not have an ok value"));
}

#[test]
fn input_type_shapes_and_names() {
    let schema = InputSchema { enums: vec![], input_objects: vec![], custom_scalars: vec![] };
    let int = InputType::Base(BaseInputType::BuiltinScalar(BuiltinScalar::Int), false);
    let list = InputType::List(Box::new(int.duplicate()), true);
    assert!(int.is_base());
    assert!(!int.is_list());
    assert!(list.is_list());
    assert!(!list.is_base());
    assert_eq!(schema.introspection_name(&int), Some("Int"));
    assert_eq!(schema.introspection_name(&list), None);
    let required = InputType::Base(BaseInputType::BuiltinScalar(BuiltinScalar::Int), true);
    assert_eq!(schema.introspection_name(&required), None);
}

#[test]
fn output_base_names() {
    let sc = SchemaDefinition {
        input: InputSchema { enums: vec![], input_objects: vec![], custom_scalars: vec![] },
        objects: vec![object("Query", vec![])],
        interfaces: vec![interface("Node")],
        unions: vec![],
        directives: vec![],
        query: 0,
        mutation: None,
        ruby_class_name: s("Schema"),
    };
    assert_eq!(sc.base_output_name(BaseOutputType::Object(0)), "Query");
    assert_eq!(sc.base_output_name(BaseOutputType::Interface(0)), "Node");
    assert_eq!(sc.base_output_name(BaseOutputType::BuiltinScalar(BuiltinScalar::ID)), "ID");
}

fn field(name: &str, builtin: bool, deprecation: Option<&str>) -> bluejay_rb::output_schema::FieldDefinition {
    bluejay_rb::output_schema::FieldDefinition {
        name: s(name),
        description: None,
        argument_definitions: vec![],
        output_type: OutputType::Base(BaseOutputType::BuiltinScalar(BuiltinScalar::String), false),
        directives: vec![],
        is_builtin: builtin,
        ruby_resolver_method_name: s(name),
        extra_resolver_args: vec![],
        deprecation_reason: deprecation.map(s),
    }
}

#[test]
fn introspection_lists_fields_not_built_in() {
    let fields = vec![
        field("name", false, None),
        field("__typename", true, None),
        field("old", false, Some("use name")),
        field("age", false, None),
    ];
    assert_eq!(listed_fields(&fields, false), vec![0, 3]);
    assert_eq!(listed_fields(&fields, true), vec![0, 2, 3]);
}

#[test]
fn introspection_lists_enum_values() {
    let value = |n: &str, d: Option<&str>| EnumValueDefinition {
        name: s(n),
        description: None,
        directives: vec![],
        deprecation_reason: d.map(s),
    };
    let values = vec![value("RED", None), value("BLUE", Some("gone")), value("GREEN", None)];
    assert_eq!(listed_enum_values(&values, false), vec![0, 2]);
    assert_eq!(listed_enum_values(&values, true), vec![0, 1, 2]);
}
