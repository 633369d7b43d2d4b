use bx_bluetooth_native::uuids::{normalized_uuid, parse_uuidish};

#[test]
fn parses_short_16_bit_uuid() {
    let uuid = parse_uuidish("2af1").expect("16-bit UUID should parse");
    assert_eq!(uuid::Uuid::from_u128(uuid).to_string(), "00002af1-0000-1000-8000-00805f9b34fb");
}

#[test]
fn normalizes_full_uuid_to_lowercase() {
    let normalized =
        normalized_uuid("00002AF1-0000-1000-8000-00805F9B34FB").expect("UUID should normalize");
    assert_eq!(normalized, "00002af1-0000-1000-8000-00805f9b34fb");
}

#[test]
fn short_uuid_value_is_over_the_bluetooth_base() {
    assert_eq!(parse_uuidish("2AF1"), Ok(0x00002af1_0000_1000_8000_00805f9b34fbu128));
    assert_eq!(parse_uuidish("0000180a"), Ok(0x0000180a_0000_1000_8000_00805f9b34fbu128));
}

#[test]
fn normalizes_32_bit_short_uuid() {
    assert_eq!(
        normalized_uuid("ABCD18F0").unwrap(),
        "abcd18f0-0000-1000-8000-00805f9b34fb"
    );
}

#[test]
fn trims_surrounding_whitespace() {
    assert_eq!(normalized_uuid("  18F0\n").unwrap(), "000018f0-0000-1000-8000-00805f9b34fb");
}

#[test]
fn accepts_simple_form() {
    assert_eq!(
        normalized_uuid("00002AF100001000800000805F9B34FB").unwrap(),
        "00002af1-0000-1000-8000-00805f9b34fb"
    );
}

#[test]
fn rejects_non_uuid_with_message() {
    assert_eq!(normalized_uuid("printer"), Err("Invalid UUID: printer".to_string()));
    assert_eq!(parse_uuidish(" 2g1 "), Err("Invalid UUID:  2g1 ".to_string()));
    assert_eq!(normalized_uuid("zzzz"), Err("Invalid UUID: zzzz".to_string()));
}

#[test]
fn normalizing_twice_is_normalizing_once() {
    let once = normalized_uuid("18F0").unwrap();
    let twice = normalized_uuid(&once).unwrap();
    assert_eq!(once, twice);
}

#[test]
fn four_non_ascii_bytes_are_widened_and_then_refused() {
    // "éé" is four bytes long, so it is widened before the parser refuses it.
    assert_eq!(normalized_uuid("éé"), Err("Invalid UUID: éé".to_string()));
}

#[test]
fn uppercased_input_normalizes_the_same() {
    for input in ["2af1", " 18f0 ", "0000180a", "00002af1-0000-1000-8000-00805f9b34fb", "nope"] {
        assert_eq!(normalized_uuid(&input.to_uppercase()), normalized_uuid(input).map_err(|_| {
            format!("Invalid UUID: {}", input.to_uppercase())
        }));
    }
}

#[test]
fn trims_unicode_whitespace() {
    assert_eq!(
        normalized_uuid("\u{a0}18F0\u{3000}").unwrap(),
        "000018f0-0000-1000-8000-00805f9b34fb"
    );
}

#[test]
fn accepts_braced_and_urn_forms() {
    assert_eq!(
        normalized_uuid("{00002AF1-0000-1000-8000-00805F9B34FB}").unwrap(),
        "00002af1-0000-1000-8000-00805f9b34fb"
    );
    assert_eq!(
        normalized_uuid("URN:uuid:00002af1-0000-1000-8000-00805f9b34fb").unwrap(),
        "00002af1-0000-1000-8000-00805f9b34fb"
    );
}

#[test]
fn rejects_malformed_text_of_accepted_lengths() {
    for input in [
        "zzzz",
        "zzzzzzzz-0000-1000-8000-00805f9b34fb",
        "0000180a00001000800000805f9b34fg",
        "{0000180a-0000-1000-8000-00805f9b34fb]",
        "urn:uuiX:0000180a-0000-1000-8000-00805f9b34fb",
        "0000180a+0000-1000-8000-00805f9b34fb",
        "0000180a-0000-1000-8000-00805f9b34f\u{e9}",
    ] {
        assert_eq!(normalized_uuid(input), Err(format!("Invalid UUID: {}", input)));
    }
    assert_eq!(
        normalized_uuid("URN:UUID:0000180A-0000-1000-8000-00805F9B34FB").unwrap(),
        "0000180a-0000-1000-8000-00805f9b34fb"
    );
}

#[test]
fn uppercasing_around_unicode_whitespace_normalizes_the_same() {
    for input in ["\u{a0}18f0\u{3000}", "\u{2003}0000180a-0000-1000-8000-00805f9b34fb\u{85}"] {
        assert_eq!(normalized_uuid(&input.to_uppercase()), normalized_uuid(input));
        assert!(normalized_uuid(input).is_ok());
    }
}
