//! Decisions of the ESP32 backend (NimBLE): how advertisements seen during a
//! scan become the device list.

use vstd::prelude::*;
use crate::backend::{device_view, devices_view, DeviceHandle};

pub use crate::backend::retain_name_prefix;

pub use crate::backend::WriteMode;
use crate::text::{ascii_lowercase, str_to_lowercase, to_lowercase};
use vstd::utf8::is_ascii_chars;

verus! {

/// Records one advertisement: a device id seen for the first time is
/// appended; for an id already listed, the first entry with it gains the
/// name when it had none and the advertisement has one, and is otherwise
/// left as it is.
pub fn record_advertisement<A>(devices: &mut Vec<DeviceHandle<A>>, address: A, id: String, name: String)
    ensures
        (forall|k: int| 0 <= k < old(devices)@.len() ==> (#[trigger] old(devices)@[k]).id@ != id@)
            ==> devices_view(final(devices)@) == devices_view(old(devices)@).push((address, id@, name@)),
        forall|k: int|
            #![trigger old(devices)@[k]]
            0 <= k < old(devices)@.len() && old(devices)@[k].id@ == id@ && (forall|j: int|
                0 <= j < k ==> (#[trigger] old(devices)@[j]).id@ != id@) ==> devices_view(final(devices)@)
                == devices_view(old(devices)@).update(
                k,
                if old(devices)@[k].name@.len() == 0 && name@.len() > 0 {
                    (old(devices)@[k].inner, old(devices)@[k].id@, name@)
                } else {
                    device_view(old(devices)@[k])
                },
            ),
{
    let n = devices.len();
    for k in 0..n
        invariant
            n == devices@.len(),
            devices@ == old(devices)@,
            forall|j: int| 0 <= j < k ==> (#[trigger] old(devices)@[j]).id@ != id@,
    {
        if crate::text::text_eq(devices[k].id.as_str(), id.as_str()) {
            if devices[k].name.unicode_len() == 0 && name.unicode_len() > 0 {
                let ghost before = devices_view(devices@);
                let mut entry = devices.remove(k);
                entry.name = name;
                devices.insert(k, entry);
                proof {
                    assert(devices_view(devices@) =~= before.update(
                        k as int,
                        (old(devices)@[k as int].inner, old(devices)@[k as int].id@, name@),
                    ));
                }
            }
            proof {
                assert forall|q: int|
                    #![trigger old(devices)@[q]]
                    0 <= q < old(devices)@.len() && old(devices)@[q].id@ == id@ && (forall|j: int|
                        0 <= j < q ==> (#[trigger] old(devices)@[j]).id@ != id@) implies q == k by {
                    if q < k {
                        assert(old(devices)@[q].id@ != id@);
                    }
                    if k < q {
                        assert(old(devices)@[k as int].id@ == id@);
                    }
                }
                assert(devices_view(old(devices)@).update(k as int, device_view(old(devices)@[k as int])) =~= devices_view(old(devices)@));
            }
            return;
        }
    }
    let ghost before = devices_view(devices@);
    devices.push(DeviceHandle { inner: address, id, name });
    proof {
        assert(devices_view(devices@) =~= before.push((address, id@, name@)));
    }
}

/// The text under which a UUID that NimBLE reports is listed: its display
/// text, lowercased.
pub fn normalize_ble_uuid(text: &str) -> (res: String)
    ensures
        res@ == str_to_lowercase(text@),
        is_ascii_chars(text@) ==> res@ == ascii_lowercase(text@),
{
    to_lowercase(text)
}

} // verus!
