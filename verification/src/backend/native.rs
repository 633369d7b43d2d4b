//! Decisions of the desktop backend (btleplug): scan options, which
//! advertised devices a scan keeps, how a payload is split into writes, and
//! the pause after each unacknowledged write.

use vstd::prelude::*;
use vstd::string::StringExecFns;
use crate::backend::{devices_view, retain_name_prefix, DeviceHandle};

pub use crate::backend::WriteMode;

verus! {

/// Options of a native scan. Service UUIDs are 128-bit values.
pub struct ScanOptions {
    pub timeout_ms: u64,
    pub services: Vec<u128>,
    pub name_prefix: Option<String>,
}

/// Largest number of bytes sent in one characteristic write.
pub const WRITE_CHUNK_SIZE: usize = 128;

/// Milliseconds to wait after each write that gets no response.
pub const UNACKNOWLEDGED_WRITE_PAUSE_MS: u64 = 20;

/// The pieces of `data` in order: `size` bytes each, the last one with the
/// rest; none for empty data.
pub open spec fn chunks_of(data: Seq<u8>, size: nat) -> Seq<Seq<u8>>
    decreases data.len(),
{
    if data.len() == 0 || size == 0 {
        seq![]
    } else if data.len() <= size {
        seq![data]
    } else {
        seq![data.take(size as int)] + chunks_of(data.skip(size as int), size)
    }
}

/// Concatenation of a sequence of byte strings.
pub open spec fn concat_all(chunks: Seq<Seq<u8>>) -> Seq<u8>
    decreases chunks.len(),
{
    if chunks.len() == 0 {
        seq![]
    } else {
        chunks[0] + concat_all(chunks.drop_first())
    }
}

/// Cuts a payload into the consecutive pieces that are written one after
/// the other: every piece has `WRITE_CHUNK_SIZE` bytes except the last, which
/// has the rest; an empty payload gives no piece.
pub fn write_chunks(data: &[u8]) -> (res: Vec<Vec<u8>>)
    ensures
        res@.map_values(|c: Vec<u8>| c@) == chunks_of(data@, WRITE_CHUNK_SIZE as nat),
{
    let n = data.len();
    let mut out: Vec<Vec<u8>> = Vec::new();
    let mut start: usize = 0;
    proof {
        assert(data@.skip(0) =~= data@);
        assert(out@.map_values(|c: Vec<u8>| c@) + chunks_of(data@, 128) =~= chunks_of(data@, 128));
    }
    while start < n
        invariant
            n == data@.len(),
            start <= n,
            chunks_of(data@, 128) == out@.map_values(|c: Vec<u8>| c@) + chunks_of(
                data@.skip(start as int),
                128,
            ),
        decreases n - start,
    {
        let end = if n - start > WRITE_CHUNK_SIZE {
            start + WRITE_CHUNK_SIZE
        } else {
            n
        };
        let mut chunk: Vec<u8> = Vec::new();
        let mut i = start;
        while i < end
            invariant
                start <= i <= end,
                end <= n,
                n == data@.len(),
                chunk@ == data@.subrange(start as int, i as int),
            decreases end - i,
        {
            chunk.push(data[i]);
            proof {
                assert(data@.subrange(start as int, i + 1) =~= data@.subrange(start as int, i as int).push(
                    data@[i as int],
                ));
            }
            i = i + 1;
        }
        let ghost rest = data@.skip(start as int);
        let ghost before = out@.map_values(|c: Vec<u8>| c@);
        proof {
            if end < n {
                assert(chunk@ =~= rest.take(128));
                assert(rest.skip(128) =~= data@.skip(end as int));
            } else {
                assert(chunk@ =~= rest);
                assert(data@.skip(end as int).len() == 0);
            }
        }
        out.push(chunk);
        proof {
            assert(out@.map_values(|c: Vec<u8>| c@) =~= before.push(chunk@));
            assert(before.push(chunk@) + chunks_of(data@.skip(end as int), 128) =~= before + (seq![
                chunk@,
            ] + chunks_of(data@.skip(end as int), 128)));
        }
        start = end;
    }
    proof {
        assert(data@.skip(start as int).len() == 0);
        assert(out@.map_values(|c: Vec<u8>| c@) + seq![] =~= out@.map_values(|c: Vec<u8>| c@));
    }
    out
}

/// Splitting loses and adds nothing: the pieces joined are the payload, and
/// each piece has between 1 and `size` bytes.
pub proof fn law_chunks_rejoin(data: Seq<u8>, size: nat)
    requires
        size > 0,
    ensures
        concat_all(chunks_of(data, size)) == data,
        forall|k: int|
            0 <= k < chunks_of(data, size).len() ==> 0 < (#[trigger] chunks_of(data, size)[k]).len()
                <= size,
    decreases data.len(),
{
    if data.len() == 0 {
        assert(concat_all(chunks_of(data, size)) =~= data);
    } else if data.len() <= size {
        let c = chunks_of(data, size);
        assert(c.drop_first() =~= seq![]);
        assert(concat_all(c.drop_first()) == Seq::<u8>::empty());
        assert(concat_all(c) =~= data);
    } else {
        law_chunks_rejoin(data.skip(size as int), size);
        let c = chunks_of(data, size);
        assert(c.drop_first() =~= chunks_of(data.skip(size as int), size));
        assert(c[0] == data.take(size as int));
        assert(data =~= data.take(size as int) + data.skip(size as int));
        assert forall|k: int| 0 <= k < c.len() implies 0 < (#[trigger] c[k]).len() <= size by {
            if k > 0 {
                assert(c[k] == chunks_of(data.skip(size as int), size)[k - 1]);
            }
        }
    }
}

/// The pause after each chunk: only writes without response are paced.
pub fn pause_after_chunk_ms(mode: WriteMode) -> (res: u64)
    ensures
        res == if mode == WriteMode::WithoutResponse {
            20u64
        } else {
            0u64
        },
{
    match mode {
        WriteMode::WithResponse => 0,
        WriteMode::WithoutResponse => UNACKNOWLEDGED_WRITE_PAUSE_MS,
    }
}

/// How long a scan listens: the requested time, but at least 1 ms.
pub fn scan_duration_ms(options: &ScanOptions) -> (res: u64)
    ensures
        res == if options.timeout_ms >= 1 {
            options.timeout_ms
        } else {
            1
        },
{
    if options.timeout_ms >= 1 {
        options.timeout_ms
    } else {
        1
    }
}

/// The name a device is listed under: its local name, else its advertised
/// name, else the empty string.
pub open spec fn advertised_name_of(local_name: Option<String>, advertisement_name: Option<String>) -> Seq<
    char,
> {
    match local_name {
        Some(n) => n@,
        None => match advertisement_name {
            Some(n) => n@,
            None => Seq::<char>::empty(),
        },
    }
}

/// The name a device is listed under: its local name, else its advertised
/// name, else the empty string.
pub fn advertised_name(local_name: Option<String>, advertisement_name: Option<String>) -> (res: String)
    ensures
        res@ == advertised_name_of(local_name, advertisement_name),
{
    match local_name {
        Some(n) => n,
        None => match advertisement_name {
            Some(n) => n,
            None => String::new(),
        },
    }
}

/// A peripheral as a scan reports it: its platform object, its address
/// text, and the names it advertises.
pub struct ScannedPeripheral<P> {
    pub inner: P,
    pub id: String,
    pub local_name: Option<String>,
    pub advertisement_name: Option<String>,
}

/// A scanned peripheral as the device entry it becomes: platform object, id
/// and listed name.
pub open spec fn scanned_view<P>(p: ScannedPeripheral<P>) -> (P, Seq<char>, Seq<char>) {
    (p.inner, p.id@, advertised_name_of(p.local_name, p.advertisement_name))
}

/// The device list of a scan: each peripheral under its listed name, in the
/// order reported, keeping those whose name begins with the prefix (all of
/// them without a prefix).
pub fn scanned_devices<P>(seen: Vec<ScannedPeripheral<P>>, prefix: &Option<String>) -> (res: Vec<
    DeviceHandle<P>,
>)
    ensures
        devices_view(res@) == seen@.map_values(|p: ScannedPeripheral<P>| scanned_view(p)).filter(
            |d: (P, Seq<char>, Seq<char>)|
                match prefix {
                    Some(p) => p@.is_prefix_of(d.2),
                    None => true,
                },
        ),
{
    let ghost all = seen@.map_values(|p: ScannedPeripheral<P>| scanned_view(p));
    let mut named: Vec<DeviceHandle<P>> = Vec::new();
    for p in it: seen
        invariant
            all == it.seq().map_values(|p: ScannedPeripheral<P>| scanned_view(p)),
            devices_view(named@) == all.take(it.index() as int),
    {
        let ghost k = it.index() as int;
        let ghost before = devices_view(named@);
        let ScannedPeripheral { inner, id, local_name, advertisement_name } = p;
        let name = advertised_name(local_name, advertisement_name);
        named.push(DeviceHandle { inner, id, name });
        proof {
            assert(devices_view(named@) =~= before.push(all[k]));
            assert(all.take(k + 1) =~= all.take(k).push(all[k]));
        }
    }
    proof {
        assert(all.take(all.len() as int) =~= all);
    }
    retain_name_prefix(named, prefix)
}

/// Whether a device name passes the scan's name-prefix filter.
pub fn name_passes_prefix(name: &str, prefix: &Option<String>) -> (res: bool)
    ensures
        res == match prefix {
            Some(p) => p@.is_prefix_of(name@),
            None => true,
        },
{
    match prefix {
        Some(p) => crate::text::starts_with(name, p.as_str()),
        None => true,
    }
}

/// The first adapter, which is the default one.
pub fn default_adapter<A>(adapters: Vec<A>) -> (res: Result<A, String>)
    ensures
        adapters@.len() > 0 ==> (res matches Ok(a) && a == adapters@[0]),
        adapters@.len() == 0 ==> (res matches Err(e) && e@ == "No Bluetooth adapters found"@),
{
    let mut adapters = adapters;
    if adapters.len() == 0 {
        return Err(String::from_str("No Bluetooth adapters found"));
    }
    Ok(adapters.remove(0))
}

} // verus!
