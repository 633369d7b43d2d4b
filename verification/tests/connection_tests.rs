use bx_bluetooth_native::backend::{CharacteristicHandle, WriteMode};
use bx_bluetooth_native::connection::{
    CharacteristicDiscovery, ConnectionState, DisconnectStep, DiscoveredCharacteristic,
    DiscoveredService, ServiceDiscovery, WriteRefusal,
};

const SVC: &str = "000018f0-0000-1000-8000-00805f9b34fb";
const INFO: &str = "0000180a-0000-1000-8000-00805f9b34fb";
const TX: &str = "00002af1-0000-1000-8000-00805f9b34fb";
const RX: &str = "00002af0-0000-1000-8000-00805f9b34fb";

fn characteristic(
    service: &str,
    uuid: &str,
    handle: u32,
    write: bool,
    wwr: bool,
    values: (u64, u64, Option<u64>),
) -> DiscoveredCharacteristic<u32, u64> {
    DiscoveredCharacteristic {
        handle: CharacteristicHandle {
            inner: handle,
            service_uuid: service.to_string(),
            uuid: uuid.to_string(),
            write,
            write_without_response: wwr,
        },
        uuid_value: values.0,
        properties_value: values.1,
        object_value: values.2,
    }
}

fn report(with_objects: bool) -> Vec<DiscoveredService<u32, u64>> {
    let obj = |o: u64| if with_objects { Some(o) } else { None };
    vec![
        DiscoveredService {
            uuid: SVC.to_string(),
            primary: true,
            uuid_value: 10,
            object_value: 11,
            characteristics: vec![
                characteristic(SVC, TX, 100, true, true, (12, 13, obj(14))),
                characteristic(SVC, RX, 101, false, false, (15, 16, obj(17))),
            ],
        },
        DiscoveredService {
            uuid: INFO.to_string(),
            primary: false,
            uuid_value: 20,
            object_value: 21,
            characteristics: vec![characteristic(INFO, TX, 200, true, false, (22, 23, obj(24)))],
        },
    ]
}

#[test]
fn fresh_connection_is_open_and_empty() {
    let state: ConnectionState<&str, u32, u64> = ConnectionState::new("peripheral");
    assert!(state.is_live());
    assert!(!state.services_discovered());
    assert!(state.ensure_live().is_ok());
    assert_eq!(state.service_objects(), Vec::<u64>::new());
}

#[test]
fn full_discovery_caches_everything() {
    let mut state: ConnectionState<&str, u32, u64> = ConnectionState::new("p");
    let objects = state.populate_services(report(true), true);
    assert_eq!(objects, vec![11, 21]);
    let entries = state.selector_entries().unwrap();
    let seen: Vec<u64> = entries.iter().map(|e| e.object_value).collect();
    assert_eq!(seen, vec![14, 17, 24]);
    assert_eq!(entries[2].service_uuid, INFO);
    assert_eq!(entries[2].characteristic_uuid, TX);
}

#[test]
fn repeated_discovery_returns_the_cache() {
    let mut state: ConnectionState<&str, u32, u64> = ConnectionState::new("p");
    let first = state.populate_services(report(false), false);
    let again = state.populate_services(report(true), true);
    assert_eq!(first, again);
    assert_eq!(state.services().len(), 2);
    assert!(!state.services()[0].characteristics_discovered);
    match state.begin_service_discovery() {
        Ok(ServiceDiscovery::Cached(v)) => assert_eq!(v, vec![11, 21]),
        _ => panic!("expected cached services"),
    }
}

#[test]
fn services_only_discovery_leaves_selector_empty() {
    let mut state: ConnectionState<&str, u32, u64> = ConnectionState::new("p");
    match state.begin_service_discovery() {
        Ok(ServiceDiscovery::AskBackend) => {}
        _ => panic!("expected a backend call"),
    }
    state.populate_services(report(false), false);
    assert_eq!(
        state.selector_entries().err(),
        Some("No characteristics have been discovered yet".to_string())
    );
    assert!(state.select_characteristics().is_err());
}

#[test]
fn characteristic_discovery_is_two_steps_then_cached() {
    let mut state: ConnectionState<&str, u32, u64> = ConnectionState::new("p");
    state.populate_services(report(false), false);
    let pending = match state.begin_characteristic_discovery(SVC).unwrap() {
        CharacteristicDiscovery::Pending(p) => p,
        CharacteristicDiscovery::Cached(_) => panic!("nothing was discovered yet"),
    };
    assert_eq!(pending.len(), 2);
    assert_eq!(pending[0].uuid, TX);
    assert_eq!(pending[0].service_uuid, SVC);
    assert_eq!((pending[1].uuid_value, pending[1].properties_value), (15, 16));
    let made = state.finish_characteristic_discovery(SVC, vec![90, 91]);
    assert_eq!(made, vec![90, 91]);
    match state.begin_characteristic_discovery(SVC).unwrap() {
        CharacteristicDiscovery::Cached(v) => assert_eq!(v, vec![90, 91]),
        CharacteristicDiscovery::Pending(_) => panic!("expected the cache"),
    }
    // Only that service's characteristics are selectable: the selector is partial.
    let entries = state.selector_entries().unwrap();
    assert_eq!(entries.len(), 2);
}

#[test]
fn unknown_service_is_reported() {
    let mut state: ConnectionState<&str, u32, u64> = ConnectionState::new("p");
    state.populate_services(report(false), false);
    assert_eq!(
        state.begin_characteristic_discovery("0000ffff-0000-1000-8000-00805f9b34fb").err(),
        Some("Service 0000ffff-0000-1000-8000-00805f9b34fb not found".to_string())
    );
}

#[test]
fn services_only_discovery_uses_the_service_uuid() {
    let mut state: ConnectionState<&str, u32, u64> = ConnectionState::new("p");
    let mut services = report(false);
    services[0].characteristics[0].handle.service_uuid = "reported-elsewhere".to_string();
    state.populate_services(services, false);
    assert_eq!(state.services()[0].characteristics[0].service_uuid, SVC);
    let mut again: ConnectionState<&str, u32, u64> = ConnectionState::new("p");
    let mut services = report(true);
    services[0].characteristics[0].handle.service_uuid = "reported-elsewhere".to_string();
    again.populate_services(services, true);
    assert_eq!(again.services()[0].characteristics[0].service_uuid, "reported-elsewhere");
}

#[test]
fn write_finds_the_first_matching_characteristic() {
    let mut state: ConnectionState<&str, u32, u64> = ConnectionState::new("p");
    state.populate_services(report(true), true);
    let found = state.find_characteristic(INFO, TX).unwrap();
    assert_eq!(found.backend, 200);
    assert_eq!(
        state.find_characteristic(INFO, RX).err(),
        Some("Characteristic not found".to_string())
    );
    let (c, data, mode) = state
        .prepare_write(SVC, TX, Ok(vec![1, 2, 3]), Some("WithResponse"))
        .unwrap();
    assert_eq!(c.backend, 100);
    assert_eq!(data, vec![1, 2, 3]);
    assert_eq!(mode, WriteMode::WithResponse);
    let (_, _, mode) = state.prepare_write(SVC, TX, Ok(vec![]), None).unwrap();
    assert_eq!(mode, WriteMode::WithoutResponse);
    assert!(matches!(
        state.prepare_write(SVC, TX, Err("not bytes".to_string()), None),
        Err(WriteRefusal::NotBinary(ref m)) if m == "write expects binary data: not bytes"
    ));
    assert!(matches!(
        state.prepare_write(INFO, RX, Ok(vec![1]), None),
        Err(WriteRefusal::InvalidState(ref m)) if m == "Characteristic not found"
    ));
}

#[test]
fn disconnect_is_idempotent_and_invalidates_everything() {
    let mut state: ConnectionState<&str, u32, u64> = ConnectionState::new("p");
    state.populate_services(report(true), true);
    assert!(state.begin_disconnect() == DisconnectStep::CloseBackend);
    assert_eq!(state.finish_disconnect(Ok(())), Ok(()));
    assert!(state.begin_disconnect() == DisconnectStep::AlreadyClosed);
    let closed = Some("connection is closed".to_string());
    assert_eq!(state.ensure_live().err(), closed);
    assert_eq!(state.selector_entries().err(), closed);
    assert_eq!(state.begin_characteristic_discovery(SVC).err(), closed);
    assert!(matches!(
        state.prepare_write(SVC, TX, Ok(vec![1]), None),
        Err(WriteRefusal::InvalidState(ref m)) if m == "connection is closed"
    ));
    assert!(matches!(state.begin_service_discovery(), Err(ref e) if Some(e.clone()) == closed));
}

#[test]
fn failed_disconnect_keeps_the_connection_open() {
    let mut state: ConnectionState<&str, u32, u64> = ConnectionState::new("p");
    assert_eq!(state.finish_disconnect(Err("busy".to_string())), Err("busy".to_string()));
    assert!(state.is_live());
}

#[test]
fn cached_discovery_ignores_what_is_reported() {
    let mut state: ConnectionState<&str, u32, u64> = ConnectionState::new("p");
    let first = state.populate_services(report(true), true);
    // Once services are cached, the report (even one without objects) is not looked at.
    let again = state.populate_services(report(false), true);
    assert_eq!(first, again);
    assert_eq!(state.selector_entries().unwrap().len(), 3);
}
