use bx_bluetooth_native::selector::{CharacteristicSelector, SelectorEntry};

fn entry(service: &str, uuid: &str, write: bool, wwr: bool, object: u64) -> SelectorEntry<u64> {
    SelectorEntry {
        service_uuid: service.to_string(),
        characteristic_uuid: uuid.to_string(),
        write,
        write_without_response: wwr,
        object_value: object,
    }
}

const S1: &str = "000018f0-0000-1000-8000-00805f9b34fb";
const S2: &str = "0000180a-0000-1000-8000-00805f9b34fb";
const C1: &str = "00002af1-0000-1000-8000-00805f9b34fb";
const C2: &str = "00002af0-0000-1000-8000-00805f9b34fb";

fn sample() -> CharacteristicSelector<u64> {
    CharacteristicSelector::new(vec![
        entry(S1, C1, true, true, 1),
        entry(S1, C2, true, false, 2),
        entry(S2, C1, false, false, 3),
        entry(S2, C2, false, true, 4),
    ])
}

#[test]
fn list_without_filters_returns_everything_in_order() {
    let mut s = sample();
    assert_eq!(s.list(), vec![1, 2, 3, 4]);
}

#[test]
fn service_filter_accepts_short_uuid() {
    let mut s = sample();
    s.service("18F0".to_string());
    assert_eq!(s.list(), vec![1, 2]);
}

#[test]
fn uuid_filter_accepts_short_uuid() {
    let mut s = sample();
    s.uuid("2AF1".to_string());
    assert_eq!(s.list(), vec![1, 3]);
}

#[test]
fn fluent_chain_combines_filters() {
    let mut s = sample();
    s.service("18f0".to_string()).writable().writeWithoutResponse();
    assert_eq!(s.list(), vec![1]);
}

#[test]
fn write_with_response_excludes_without_response() {
    let mut s = sample();
    s.writeWithResponse();
    assert_eq!(s.list(), vec![2]);
}

#[test]
fn response_modes_together_select_nothing() {
    let mut s = sample();
    s.writeWithResponse().writeWithoutResponse();
    assert_eq!(s.list(), Vec::<u64>::new());
}

#[test]
fn invalid_service_uuid_clears_the_service_filter() {
    let mut s = sample();
    s.service("18f0".to_string());
    s.service("not a uuid".to_string());
    assert_eq!(s.list(), vec![1, 2, 3, 4]);
}

#[test]
fn filter_order_does_not_matter() {
    let mut a = sample();
    a.writable().uuid("2af0".to_string());
    let mut b = sample();
    b.uuid("2af0".to_string()).writable();
    assert_eq!(a.list(), b.list());
    assert_eq!(a.list(), vec![2]);
}

#[test]
fn listing_twice_gives_the_same_answer() {
    let mut s = sample();
    s.writable();
    let first = s.list();
    assert_eq!(s.list(), first);
}
