use bx_bluetooth_native::objects::{
    bt_error_arguments, get_object_property, service_property, BTError, ErrorCode, PropertyValue,
};

#[test]
fn property_lookup_ignores_ascii_case() {
    let table = [("id", 1u64), ("name", 2u64)];
    assert_eq!(get_object_property("ID", &table), Some(1));
    assert_eq!(get_object_property("Name", &table), Some(2));
    assert_eq!(get_object_property("names", &table), None);
    assert_eq!(get_object_property("id", &[("ID", 5u64), ("id", 6u64)]), Some(5));
}

#[test]
fn bt_error_fields() {
    let e = BTError { code: 1u64, message: 2, details: None };
    assert_eq!(e.get_property("CODE"), Some(1));
    assert_eq!(e.get_property("message"), Some(2));
    assert_eq!(e.get_property("details"), None);
    assert_eq!(e.get_property("other"), None);
    let d = BTError { code: 1u64, message: 2, details: Some(3) };
    assert_eq!(d.get_property("Details"), Some(3));
}

#[test]
fn bt_error_constructor_arguments() {
    assert_eq!(
        bt_error_arguments(&[1u64]),
        Err("BTError requires code and message".to_string())
    );
    assert_eq!(bt_error_arguments(&[1u64, 2]), Ok((1, 2, None)));
    assert_eq!(bt_error_arguments(&[1u64, 2, 3, 4]), Ok((1, 2, Some(3))));
}

#[test]
fn service_properties() {
    assert!(matches!(service_property("UUID", 7u64, true), PropertyValue::Value(7)));
    assert!(matches!(service_property("Primary", 7u64, false), PropertyValue::Bool(false)));
    assert!(matches!(service_property("name", 7u64, true), PropertyValue::Null));
}

#[test]
fn error_codes() {
    assert_eq!(ErrorCode::BackendError.as_text(), "backendError");
    assert_eq!(ErrorCode::NotSupported.as_text(), "notSupported");
    assert_eq!(ErrorCode::ConnectionFailed.as_text(), "connectionFailed");
    assert_eq!(ErrorCode::InvalidState.as_text(), "invalidState");
    assert_eq!(ErrorCode::WriteFailed.as_text(), "writeFailed");
}
