use bluejay_rb::coercion_error::CoercionError;
use bluejay_rb::errors::{ErrorLocation, ExecutionError, ValidationError};
use bluejay_rb::path::{Path, PathElement};

#[test]
fn validation_error_keeps_its_message() {
    let e = ValidationError::new("Field `foo` does not exist on `Query`".to_string());
    assert_eq!(e.message(), "Field `foo` does not exist on `Query`");
}

#[test]
fn coercion_error_keeps_message_and_path() {
    let e = CoercionError::new("bad".to_string(), vec!["a".to_string(), "0".to_string()]);
    assert_eq!(e.message(), "bad");
    assert_eq!(e.path(), vec!["a".to_string(), "0".to_string()]);
}

#[test]
fn path_to_vec_goes_from_the_last_element_back() {
    let p = Path::new(PathElement::Key("users")).append(PathElement::Index(3)).append(PathElement::Key("name"));
    assert_eq!(p.to_vec(), vec!["name".to_string(), "3".to_string(), "users".to_string()]);
}

#[test]
fn error_location_fields() {
    let loc = ErrorLocation::new(2, 7);
    assert_eq!(loc.line, 2);
    assert_eq!(loc.column, 7);
    let e = ExecutionError::new("boom".to_string(), None, Some(vec![loc]));
    assert_eq!(e.message(), "boom");
    assert_eq!(e.path(), None);
}
