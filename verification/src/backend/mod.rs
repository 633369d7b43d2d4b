//! Types shared by the Bluetooth backends. The platform objects (a btleplug
//! `Characteristic`, a Web Bluetooth `BluetoothRemoteGattCharacteristic`, a
//! NimBLE remote characteristic, ...) travel in the generic `inner` fields.
//! The device list that a scan reports, and its name-prefix filter, are
//! shared by the backends too.

use vstd::prelude::*;

pub mod esp32;
pub mod native;
pub mod wasm;

verus! {

/// How a characteristic write is acknowledged.
#[derive(Clone, Copy, Debug, PartialEq, Eq, Structural)]
pub enum WriteMode {
    WithResponse,
    WithoutResponse,
}

/// A characteristic as a backend reports it, with its UUIDs already in
/// lowercase text and its two write properties.
#[derive(Clone, Debug)]
pub struct CharacteristicHandle<H> {
    pub inner: H,
    pub service_uuid: String,
    pub uuid: String,
    pub write: bool,
    pub write_without_response: bool,
}

/// Mathematical view of a `CharacteristicHandle`.
pub struct CharacteristicHandleView<H> {
    pub inner: H,
    pub service_uuid: Seq<char>,
    pub uuid: Seq<char>,
    pub write: bool,
    pub write_without_response: bool,
}

impl<H> View for CharacteristicHandle<H> {
    type V = CharacteristicHandleView<H>;

    open spec fn view(&self) -> CharacteristicHandleView<H> {
        CharacteristicHandleView {
            inner: self.inner,
            service_uuid: self.service_uuid@,
            uuid: self.uuid@,
            write: self.write,
            write_without_response: self.write_without_response,
        }
    }
}

/// A device as a scan or a chooser reports it.
#[derive(Clone, Debug)]
pub struct DeviceHandle<P> {
    pub inner: P,
    pub id: String,
    pub name: String,
}

/// Mathematical view of a device entry: its address, id and name.
pub open spec fn device_view<A>(d: DeviceHandle<A>) -> (A, Seq<char>, Seq<char>) {
    (d.inner, d.id@, d.name@)
}

/// The device list as views.
pub open spec fn devices_view<A>(devices: Seq<DeviceHandle<A>>) -> Seq<(A, Seq<char>, Seq<char>)> {
    devices.map_values(|d: DeviceHandle<A>| device_view(d))
}

/// Keeps the devices whose name begins with the prefix (all of them without
/// a prefix), in order.
pub fn retain_name_prefix<A>(devices: Vec<DeviceHandle<A>>, prefix: &Option<String>) -> (res: Vec<
    DeviceHandle<A>,
>)
    ensures
        devices_view(res@) == devices_view(devices@).filter(
            |d: (A, Seq<char>, Seq<char>)|
                match prefix {
                    Some(p) => p@.is_prefix_of(d.2),
                    None => true,
                },
        ),
{
    let ghost pred = |d: (A, Seq<char>, Seq<char>)|
        match prefix {
            Some(p) => p@.is_prefix_of(d.2),
            None => true,
        };
    let ghost all = devices_view(devices@);
    let mut out: Vec<DeviceHandle<A>> = Vec::new();
    for d in it: devices
        invariant
            all == devices_view(it.seq()),
            pred == (|d: (A, Seq<char>, Seq<char>)|
                match prefix {
                    Some(p) => p@.is_prefix_of(d.2),
                    None => true,
                }),
            devices_view(out@) == all.take(it.index() as int).filter(pred),
    {
        let ghost k = it.index() as int;
        let ghost before = devices_view(out@);
        proof {
            assert(all.take(k + 1).drop_last() =~= all.take(k));
            assert(all[k] == device_view(d));
        }
        let keep = crate::backend::native::name_passes_prefix(d.name.as_str(), prefix);
        if keep {
            out.push(d);
            proof {
                assert(devices_view(out@) =~= before.push(all[k]));
            }
        }
        proof {
            reveal(Seq::filter);
            assert(all.take(k + 1).filter(pred) == if pred(all[k]) {
                all.take(k).filter(pred).push(all[k])
            } else {
                all.take(k).filter(pred)
            });
        }
    }
    proof {
        assert(all.take(all.len() as int) =~= all);
    }
    out
}

} // verus!
