use bx_bluetooth_native::backend::esp32::{normalize_ble_uuid, record_advertisement, retain_name_prefix};
use bx_bluetooth_native::backend::native::{
    advertised_name, default_adapter, name_passes_prefix, pause_after_chunk_ms, scan_duration_ms,
    scanned_devices, write_chunks, ScanOptions, ScannedPeripheral,
};
use bx_bluetooth_native::backend::wasm::{request_device_plan, RequestDeviceOptionsInput};
use bx_bluetooth_native::backend::{DeviceHandle, WriteMode};
use bx_bluetooth_native::harness::{future_step, FutureStep};

#[test]
fn payload_is_cut_into_128_byte_pieces() {
    let data: Vec<u8> = (0..300u32).map(|i| i as u8).collect();
    let chunks = write_chunks(&data);
    assert_eq!(chunks.len(), 3);
    assert_eq!(chunks[0].len(), 128);
    assert_eq!(chunks[1].len(), 128);
    assert_eq!(chunks[2].len(), 44);
    assert_eq!(chunks.concat(), data);
}

#[test]
fn exact_multiple_and_empty_payloads() {
    assert_eq!(write_chunks(&[7u8; 256]).len(), 2);
    assert_eq!(write_chunks(&[]).len(), 0);
    assert_eq!(write_chunks(&[1, 2, 3]), vec![vec![1, 2, 3]]);
}

#[test]
fn only_unacknowledged_writes_are_paced() {
    assert_eq!(pause_after_chunk_ms(WriteMode::WithoutResponse), 20);
    assert_eq!(pause_after_chunk_ms(WriteMode::WithResponse), 0);
}

#[test]
fn scan_listens_at_least_one_millisecond() {
    let mut o = ScanOptions { timeout_ms: 0, services: vec![], name_prefix: None };
    assert_eq!(scan_duration_ms(&o), 1);
    o.timeout_ms = 2500;
    assert_eq!(scan_duration_ms(&o), 2500);
}

#[test]
fn device_name_falls_back() {
    assert_eq!(advertised_name(Some("KM-1".into()), Some("adv".into())), "KM-1");
    assert_eq!(advertised_name(None, Some("adv".into())), "adv");
    assert_eq!(advertised_name(None, None), "");
}

#[test]
fn name_prefix_filter() {
    assert!(name_passes_prefix("KM-Printer", &Some("KM".to_string())));
    assert!(!name_passes_prefix("Printer", &Some("KM".to_string())));
    assert!(!name_passes_prefix("K", &Some("KM".to_string())));
    assert!(name_passes_prefix("", &None));
}

#[test]
fn default_adapter_is_the_first() {
    assert_eq!(default_adapter(vec![3, 4]), Ok(3));
    assert_eq!(default_adapter(Vec::<u8>::new()), Err("No Bluetooth adapters found".to_string()));
}

#[test]
fn request_without_criteria_accepts_all_devices() {
    let plan = request_device_plan(RequestDeviceOptionsInput::default());
    assert!(plan.accept_all_devices);
    assert!(plan.filter.is_none());
    assert!(plan.optional_services.is_none());
}

#[test]
fn request_with_criteria_uses_one_filter() {
    let plan = request_device_plan(RequestDeviceOptionsInput {
        services: vec!["000018f0-0000-1000-8000-00805f9b34fb".to_string()],
        optional_services: vec!["0000180a-0000-1000-8000-00805f9b34fb".to_string()],
        name_prefix: Some("KM".to_string()),
    });
    assert!(!plan.accept_all_devices);
    let filter = plan.filter.unwrap();
    assert_eq!(filter.name_prefix, Some("KM".to_string()));
    assert_eq!(filter.services.unwrap().len(), 1);
    assert_eq!(plan.optional_services.unwrap()[0], "0000180a-0000-1000-8000-00805f9b34fb");
    let prefix_only = request_device_plan(RequestDeviceOptionsInput {
        services: vec![],
        optional_services: vec![],
        name_prefix: Some("KM".to_string()),
    });
    assert!(prefix_only.filter.unwrap().services.is_none());
}

fn device(addr: u8, id: &str, name: &str) -> DeviceHandle<u8> {
    DeviceHandle { inner: addr, id: id.to_string(), name: name.to_string() }
}

#[test]
fn advertisements_are_deduplicated_by_id() {
    let mut devices = vec![];
    record_advertisement(&mut devices, 1, "AA".to_string(), "".to_string());
    record_advertisement(&mut devices, 2, "BB".to_string(), "KM-2".to_string());
    record_advertisement(&mut devices, 9, "AA".to_string(), "KM-1".to_string());
    record_advertisement(&mut devices, 9, "BB".to_string(), "Other".to_string());
    assert_eq!(devices.len(), 2);
    assert_eq!((devices[0].inner, devices[0].name.as_str()), (1, "KM-1"));
    assert_eq!(devices[1].name, "KM-2");
    let kept = retain_name_prefix(
        vec![device(1, "a", "KM-1"), device(2, "b", "X"), device(3, "c", "KM-3")],
        &Some("KM".to_string()),
    );
    let ids: Vec<&str> = kept.iter().map(|d| d.id.as_str()).collect();
    assert_eq!(ids, vec!["a", "c"]);
}

#[test]
fn harness_steps_follow_the_future_state() {
    assert!(matches!(future_step::<u8>(0, None), FutureStep::YieldAndPump));
    assert!(matches!(future_step(1, Some(5u8)), FutureStep::Resolve(Some(5))));
    assert!(matches!(future_step(2, Some(6u8)), FutureStep::Reject(Some(6))));
    assert!(matches!(future_step::<u8>(7, None), FutureStep::Fail));
}

fn seen(inner: u8, id: &str, local: Option<&str>, adv: Option<&str>) -> ScannedPeripheral<u8> {
    ScannedPeripheral {
        inner,
        id: id.to_string(),
        local_name: local.map(|n| n.to_string()),
        advertisement_name: adv.map(|n| n.to_string()),
    }
}

#[test]
fn scan_lists_peripherals_by_name_and_filters_by_prefix() {
    let all = || {
        vec![
            seen(1, "AA", Some("KM-1"), Some("ignored")),
            seen(2, "BB", None, Some("KM-2")),
            seen(3, "CC", None, None),
            seen(4, "DD", Some("Other"), None),
        ]
    };
    let kept = scanned_devices(all(), &Some("KM".to_string()));
    let listed: Vec<(u8, &str, &str)> =
        kept.iter().map(|d| (d.inner, d.id.as_str(), d.name.as_str())).collect();
    assert_eq!(listed, vec![(1, "AA", "KM-1"), (2, "BB", "KM-2")]);
    let every = scanned_devices(all(), &None);
    let names: Vec<&str> = every.iter().map(|d| d.name.as_str()).collect();
    assert_eq!(names, vec!["KM-1", "KM-2", "", "Other"]);
}

#[test]
fn ble_uuid_text_is_lowercased() {
    assert_eq!(normalize_ble_uuid("0x2AF1"), "0x2af1");
    assert_eq!(normalize_ble_uuid("0000180A-0000-1000-8000-00805F9B34FB"), "0000180a-0000-1000-8000-00805f9b34fb");
}
