use bx_bluetooth_native::backend::WriteMode;
use bx_bluetooth_native::options::{
    parse_request_device_options, parse_scan_options, parse_write_mode, OptionsArgument,
    RequestDeviceFields, ScanOptionsFields, StringListField,
};

#[test]
fn scan_defaults() {
    let o = parse_scan_options(OptionsArgument::Null).unwrap();
    assert_eq!(o.timeout_ms, 3000);
    assert!(o.services.is_empty());
    assert!(o.name_prefix.is_none());
    assert_eq!(
        parse_scan_options(OptionsArgument::NotAStruct).err(),
        Some("scan options must be a struct".to_string())
    );
}

#[test]
fn scan_struct_fields() {
    let o = parse_scan_options(OptionsArgument::Struct(ScanOptionsFields {
        timeout_ms: Some(5000),
        name_prefix: Some("KM".to_string()),
        services: StringListField::Items(vec!["18F0".to_string()]),
    }))
    .unwrap();
    assert_eq!(o.timeout_ms, 5000);
    assert_eq!(o.services, vec![0x000018f0_0000_1000_8000_00805f9b34fbu128]);
    assert_eq!(o.name_prefix, Some("KM".to_string()));
}

#[test]
fn scan_service_errors() {
    let bad = parse_scan_options(OptionsArgument::Struct(ScanOptionsFields {
        timeout_ms: None,
        name_prefix: None,
        services: StringListField::Items(vec!["18F0".to_string(), "nope".to_string(), "bad".to_string()]),
    }));
    assert_eq!(bad.err(), Some("Invalid UUID: nope".to_string()));
    let not_array = parse_scan_options(OptionsArgument::Struct(ScanOptionsFields {
        timeout_ms: None,
        name_prefix: None,
        services: StringListField::NotAnArray,
    }));
    assert_eq!(not_array.err(), Some("Expected array".to_string()));
}

#[test]
fn request_device_options() {
    let o = parse_request_device_options(OptionsArgument::Struct(RequestDeviceFields {
        services: StringListField::Items(vec!["18F0".to_string()]),
        optional_services: StringListField::Items(vec!["180A".to_string()]),
        name_prefix: Some("KM".to_string()),
    }))
    .unwrap();
    assert_eq!(o.services, vec!["000018f0-0000-1000-8000-00805f9b34fb".to_string()]);
    assert_eq!(o.optional_services, vec!["0000180a-0000-1000-8000-00805f9b34fb".to_string()]);
    assert_eq!(o.name_prefix, Some("KM".to_string()));
    let d = parse_request_device_options(OptionsArgument::Null).unwrap();
    assert!(d.services.is_empty() && d.optional_services.is_empty() && d.name_prefix.is_none());
    assert_eq!(
        parse_request_device_options(OptionsArgument::NotAStruct).err(),
        Some("requestDevice options must be a struct".to_string())
    );
    let first_error_wins = parse_request_device_options(OptionsArgument::Struct(RequestDeviceFields {
        services: StringListField::Items(vec!["xx".to_string()]),
        optional_services: StringListField::NotAnArray,
        name_prefix: None,
    }));
    assert_eq!(first_error_wins.err(), Some("Invalid UUID: xx".to_string()));
    let optional_not_array = parse_request_device_options(OptionsArgument::Struct(RequestDeviceFields {
        services: StringListField::Absent,
        optional_services: StringListField::NotAnArray,
        name_prefix: None,
    }));
    assert_eq!(optional_not_array.err(), Some("Expected array".to_string()));
}

#[test]
fn write_mode_option() {
    assert_eq!(parse_write_mode(None), WriteMode::WithoutResponse);
    assert_eq!(parse_write_mode(Some("withResponse")), WriteMode::WithResponse);
    assert_eq!(parse_write_mode(Some("WITHRESPONSE")), WriteMode::WithResponse);
    assert_eq!(parse_write_mode(Some("withoutResponse")), WriteMode::WithoutResponse);
    assert_eq!(parse_write_mode(Some("fast")), WriteMode::WithoutResponse);
}
