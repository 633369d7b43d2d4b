//! The GATT cache that a connection owns. Services and characteristics are
//! discovered once and then served from the cache; every operation on a
//! closed connection fails with the same message.
//!
//! `C` is the backend's connection handle, `H` its characteristic handle and
//! `O` the VM's value type (strings, structs and native objects that the VM
//! allocated for the cache).

use vstd::prelude::*;
use vstd::string::StringExecFns;
use crate::backend::{CharacteristicHandle, CharacteristicHandleView, WriteMode};
use crate::selector::{CharacteristicSelector, SelectorEntry, SelectorEntryView};

verus! {

/// A characteristic in the cache.
#[derive(Debug)]
pub struct CharacteristicRecord<H, O> {
    pub backend: H,
    pub service_uuid: String,
    pub uuid: String,
    pub write: bool,
    pub write_without_response: bool,
    pub uuid_value: O,
    pub properties_value: O,
    pub object_value: Option<O>,
}

/// Mathematical view of a `CharacteristicRecord`.
pub struct CharacteristicRecordView<H, O> {
    pub backend: H,
    pub service_uuid: Seq<char>,
    pub uuid: Seq<char>,
    pub write: bool,
    pub write_without_response: bool,
    pub uuid_value: O,
    pub properties_value: O,
    pub object_value: Option<O>,
}

impl<H, O> View for CharacteristicRecord<H, O> {
    type V = CharacteristicRecordView<H, O>;

    open spec fn view(&self) -> CharacteristicRecordView<H, O> {
        CharacteristicRecordView {
            backend: self.backend,
            service_uuid: self.service_uuid@,
            uuid: self.uuid@,
            write: self.write,
            write_without_response: self.write_without_response,
            uuid_value: self.uuid_value,
            properties_value: self.properties_value,
            object_value: self.object_value,
        }
    }
}

/// A service in the cache.
#[derive(Debug)]
pub struct ServiceRecord<H, O> {
    pub uuid: String,
    pub primary: bool,
    pub uuid_value: O,
    pub object_value: Option<O>,
    pub characteristics_discovered: bool,
    pub characteristics: Vec<CharacteristicRecord<H, O>>,
}

/// Mathematical view of a `ServiceRecord`.
pub struct ServiceRecordView<H, O> {
    pub uuid: Seq<char>,
    pub primary: bool,
    pub uuid_value: O,
    pub object_value: Option<O>,
    pub characteristics_discovered: bool,
    pub characteristics: Seq<CharacteristicRecordView<H, O>>,
}

impl<H, O> View for ServiceRecord<H, O> {
    type V = ServiceRecordView<H, O>;

    open spec fn view(&self) -> ServiceRecordView<H, O> {
        ServiceRecordView {
            uuid: self.uuid@,
            primary: self.primary,
            uuid_value: self.uuid_value,
            object_value: self.object_value,
            characteristics_discovered: self.characteristics_discovered,
            characteristics: self.characteristics@.map_values(
                |c: CharacteristicRecord<H, O>| c@,
            ),
        }
    }
}

/// A characteristic that a backend reported, with the VM values made for it:
/// its UUID string, its `properties` struct and, when characteristics are
/// discovered together with their service, its `Characteristic` object.
pub struct DiscoveredCharacteristic<H, O> {
    pub handle: CharacteristicHandle<H>,
    pub uuid_value: O,
    pub properties_value: O,
    pub object_value: Option<O>,
}

/// Mathematical view of a `DiscoveredCharacteristic`.
pub struct DiscoveredCharacteristicView<H, O> {
    pub handle: CharacteristicHandleView<H>,
    pub uuid_value: O,
    pub properties_value: O,
    pub object_value: Option<O>,
}

impl<H, O> View for DiscoveredCharacteristic<H, O> {
    type V = DiscoveredCharacteristicView<H, O>;

    open spec fn view(&self) -> DiscoveredCharacteristicView<H, O> {
        DiscoveredCharacteristicView {
            handle: self.handle@,
            uuid_value: self.uuid_value,
            properties_value: self.properties_value,
            object_value: self.object_value,
        }
    }
}

/// A service that a backend reported, with its UUID string and its
/// `Service` object.
pub struct DiscoveredService<H, O> {
    pub uuid: String,
    pub primary: bool,
    pub uuid_value: O,
    pub object_value: O,
    pub characteristics: Vec<DiscoveredCharacteristic<H, O>>,
}

/// Mathematical view of a `DiscoveredService`.
pub struct DiscoveredServiceView<H, O> {
    pub uuid: Seq<char>,
    pub primary: bool,
    pub uuid_value: O,
    pub object_value: O,
    pub characteristics: Seq<DiscoveredCharacteristicView<H, O>>,
}

impl<H, O> View for DiscoveredService<H, O> {
    type V = DiscoveredServiceView<H, O>;

    open spec fn view(&self) -> DiscoveredServiceView<H, O> {
        DiscoveredServiceView {
            uuid: self.uuid@,
            primary: self.primary,
            uuid_value: self.uuid_value,
            object_value: self.object_value,
            characteristics: self.characteristics@.map_values(
                |c: DiscoveredCharacteristic<H, O>| c@,
            ),
        }
    }
}

/// The record that a reported characteristic becomes. Discovered together
/// with its service, it keeps the service UUID that the backend reported on
/// it and its object; otherwise it takes its service's UUID and no object.
pub open spec fn characteristic_record_of<H, O>(
    d: DiscoveredCharacteristicView<H, O>,
    service_uuid: Seq<char>,
    with_characteristics: bool,
) -> CharacteristicRecordView<H, O> {
    CharacteristicRecordView {
        backend: d.handle.inner,
        service_uuid: if with_characteristics {
            d.handle.service_uuid
        } else {
            service_uuid
        },
        uuid: d.handle.uuid,
        write: d.handle.write,
        write_without_response: d.handle.write_without_response,
        uuid_value: d.uuid_value,
        properties_value: d.properties_value,
        object_value: if with_characteristics {
            d.object_value
        } else {
            None
        },
    }
}

/// The record that a reported service becomes.
pub open spec fn service_record_of<H, O>(
    d: DiscoveredServiceView<H, O>,
    with_characteristics: bool,
) -> ServiceRecordView<H, O> {
    ServiceRecordView {
        uuid: d.uuid,
        primary: d.primary,
        uuid_value: d.uuid_value,
        object_value: Some(d.object_value),
        characteristics_discovered: with_characteristics,
        characteristics: d.characteristics.map_values(
            |c: DiscoveredCharacteristicView<H, O>|
                characteristic_record_of(c, d.uuid, with_characteristics),
        ),
    }
}

/// The values present in a sequence of options, in order.
pub open spec fn somes<O>(s: Seq<Option<O>>) -> Seq<O>
    decreases s.len(),
{
    if s.len() == 0 {
        seq![]
    } else {
        let rest = somes(s.drop_last());
        match s.last() {
            Some(o) => rest.push(o),
            None => rest,
        }
    }
}

/// The `Service` objects of the cached services, in order.
pub open spec fn service_objects<H, O>(services: Seq<ServiceRecordView<H, O>>) -> Seq<O> {
    somes(services.map_values(|r: ServiceRecordView<H, O>| r.object_value))
}

/// The `Characteristic` objects of a service's cached characteristics, in order.
pub open spec fn characteristic_objects<H, O>(
    characteristics: Seq<CharacteristicRecordView<H, O>>,
) -> Seq<O> {
    somes(characteristics.map_values(|c: CharacteristicRecordView<H, O>| c.object_value))
}

/// The state of one connection: whether it is open, the backend handle, and
/// the GATT cache.
#[derive(Debug)]
pub struct ConnectionState<C, H, O> {
    live: bool,
    backend: C,
    services_discovered: bool,
    services: Vec<ServiceRecord<H, O>>,
}

impl<C, H, O> ConnectionState<C, H, O> {
    /// The cached services, as views.
    pub closed spec fn services_view(&self) -> Seq<ServiceRecordView<H, O>> {
        self.services@.map_values(|r: ServiceRecord<H, O>| r@)
    }

    /// Whether the connection is open.
    pub closed spec fn live(&self) -> bool {
        self.live
    }

    /// Whether services have been discovered (and are cached).
    pub closed spec fn discovered(&self) -> bool {
        self.services_discovered
    }

    /// The backend's connection handle.
    pub closed spec fn backend_view(&self) -> C {
        self.backend
    }

    /// The cache's invariant, which every `ConnectionState` keeps: nothing is
    /// cached before service discovery, every cached service has its object,
    /// and a service's characteristics have objects exactly when they have
    /// been discovered.
    #[verifier::type_invariant]
    closed spec fn wf(&self) -> bool {
        &&& !self.services_discovered ==> self.services@.len() == 0
        &&& forall|i: int| 0 <= i < self.services@.len() ==> service_record_wf(#[trigger] self.services@[i]@)
    }
}

impl<C, H, O: Copy> ConnectionState<C, H, O> {
    /// Whether the connection is open.
    pub fn is_live(&self) -> (res: bool)
        ensures
            res == self.live(),
    {
        self.live
    }

    /// Whether services have been discovered.
    pub fn services_discovered(&self) -> (res: bool)
        ensures
            res == self.discovered(),
    {
        self.services_discovered
    }

    /// The backend's connection handle.
    pub fn backend(&self) -> (res: &C)
        ensures
            *res == self.backend_view(),
    {
        &self.backend
    }

    /// The cached services. Every one is well formed, and there is none
    /// before service discovery.
    pub fn services(&self) -> (res: &Vec<ServiceRecord<H, O>>)
        ensures
            res@.map_values(|r: ServiceRecord<H, O>| r@) == self.services_view(),
            !self.discovered() ==> res@.len() == 0,
            forall|i: int|
                0 <= i < res@.len() ==> service_record_wf(#[trigger] self.services_view()[i]),
    {
        proof {
            use_type_invariant(self);
        }
        &self.services
    }

    /// A fresh, open connection with nothing discovered.
    pub fn new(backend: C) -> (res: Self)
        ensures
            res.live(),
            res.backend_view() == backend,
            !res.discovered(),
            res.services_view().len() == 0,

    {
        ConnectionState { live: true, backend, services_discovered: false, services: Vec::new() }
    }

    /// `Ok` while the connection is open, else the error that every
    /// operation on a closed connection reports.
    pub fn ensure_live(&self) -> (res: Result<(), String>)
        ensures
            self.live() ==> res is Ok,
            !self.live() ==> (res matches Err(e) && e@ == closed_message()),
    {
        if !self.live {
            return Err(String::from_str("connection is closed"));
        }
        Ok(())
    }

    /// The `Service` objects of the cached services, in order.
    pub fn service_objects(&self) -> (res: Vec<O>)
        ensures
            res@ == service_objects(self.services_view()),
    {
        let mut out: Vec<O> = Vec::new();
        let n = self.services.len();
        for i in 0..n
            invariant
                n == self.services@.len(),
                out@ == service_objects(self.services_view().take(i as int)),
        {
            proof {
                lemma_service_objects_step(self.services_view(), i as int);
            }
            match self.services[i].object_value {
                Some(o) => out.push(o),
                None => {},
            }
        }
        proof {
            assert(self.services_view().take(n as int) =~= self.services_view());
        }
        out
    }

    /// Caches what service discovery found, once. On a connection whose
    /// services are already cached, nothing changes and the cached `Service`
    /// objects are returned; otherwise every reported service is cached, with
    /// its characteristics marked discovered when `with_characteristics`, and
    /// the new `Service` objects are returned. Either way the result is the
    /// cache's `Service` objects.
    pub fn populate_services(
        &mut self,
        services: Vec<DiscoveredService<H, O>>,
        with_characteristics: bool,
    ) -> (res: Vec<O>)
        requires
            !old(self).discovered() && with_characteristics ==> forall|i: int, j: int|
                0 <= i < services@.len() && 0 <= j < services@[i]@.characteristics.len()
                    ==> (#[trigger] services@[i]@.characteristics[j]).object_value is Some,
        ensures
            final(self).live() == old(self).live(),
            final(self).backend_view() == old(self).backend_view(),
            final(self).discovered(),
            old(self).discovered() ==> final(self).services_view() == old(self).services_view(),
            !old(self).discovered() ==> final(self).services_view() == services@.map_values(
                |d: DiscoveredService<H, O>| service_record_of(d@, with_characteristics),
            ),
            old(self).discovered() ==> res@ == service_objects(old(self).services_view()),
            !old(self).discovered() ==> res@ == services@.map_values(
                |d: DiscoveredService<H, O>| d.object_value,
            ),
            res@ == service_objects(final(self).services_view()),
            !old(self).discovered() ==> final(self).services_view().len() == services@.len(),
            !old(self).discovered() ==> forall|i: int, j: int|
                0 <= i < services@.len() && 0 <= j < services@[i]@.characteristics.len() ==> {
                    let r = #[trigger] final(self).services_view()[i].characteristics[j];
                    let h = services@[i]@.characteristics[j].handle;
                    &&& final(self).services_view()[i].characteristics.len()
                        == services@[i]@.characteristics.len()
                    &&& r.uuid == h.uuid
                    &&& r.write == h.write
                    &&& r.write_without_response == h.write_without_response
                },
    {
        proof {
            use_type_invariant(&*self);
        }
        if self.services_discovered {
            return self.service_objects();
        }
        let mut built: Vec<ServiceRecord<H, O>> = Vec::new();
        let ghost reported = services@;
        let ghost target = reported.map_values(
            |d: DiscoveredService<H, O>| service_record_of(d@, with_characteristics),
        );
        let mut values: Vec<O> = Vec::new();
        for service in it: services
            invariant
                it.seq() == reported,
                target == reported.map_values(
                    |d: DiscoveredService<H, O>| service_record_of(d@, with_characteristics),
                ),
                built@.map_values(|r: ServiceRecord<H, O>| r@) == target.take(it.index() as int),
                values@ == reported.take(it.index() as int).map_values(
                    |d: DiscoveredService<H, O>| d.object_value,
                ),
                with_characteristics ==> forall|i: int, j: int|
                    0 <= i < reported.len() && 0 <= j < reported[i]@.characteristics.len()
                        ==> (#[trigger] reported[i]@.characteristics[j]).object_value is Some,
        {
            let ghost k = it.index() as int;
            let ghost dv = service@;
            let DiscoveredService { uuid, primary, uuid_value, object_value, characteristics } = service;
            let mut record = ServiceRecord {
                uuid: uuid.clone(),
                primary,
                uuid_value,
                object_value: Some(object_value),
                characteristics_discovered: with_characteristics,
                characteristics: Vec::new(),
            };
            let ghost chars = characteristics@;
            for characteristic in cit: characteristics
                invariant
                    cit.seq() == chars,
                    record.uuid@ == dv.uuid,
                    record.primary == dv.primary,
                    record.uuid_value == dv.uuid_value,
                    record.object_value == Some(dv.object_value),
                    record.characteristics_discovered == with_characteristics,
                    uuid@ == dv.uuid,
                    record@.characteristics == chars.take(cit.index() as int).map_values(
                        |c: DiscoveredCharacteristic<H, O>|
                            characteristic_record_of(c@, dv.uuid, with_characteristics),
                    ),
            {
                let ghost m = cit.index() as int;
                assert(characteristic == chars[m]);
                let ghost cv = characteristic@;
                let DiscoveredCharacteristic { handle, uuid_value, properties_value, object_value } =
                    characteristic;
                let CharacteristicHandle { inner, service_uuid, uuid: char_uuid, write, write_without_response } =
                    handle;
                let entry = if with_characteristics {
                    CharacteristicRecord {
                        backend: inner,
                        service_uuid,
                        uuid: char_uuid,
                        write,
                        write_without_response,
                        uuid_value,
                        properties_value,
                        object_value,
                    }
                } else {
                    CharacteristicRecord {
                        backend: inner,
                        service_uuid: uuid.clone(),
                        uuid: char_uuid,
                        write,
                        write_without_response,
                        uuid_value,
                        properties_value,
                        object_value: None,
                    }
                };
                assert(entry@ == characteristic_record_of(cv, dv.uuid, with_characteristics));
                let ghost before = record@.characteristics;
                record.characteristics.push(entry);
                proof {
                    assert(record@.characteristics =~= before.push(entry@));
                    assert(chars.take(m + 1) =~= chars.take(m).push(chars[m]));
                    assert(record@.characteristics =~= chars.take(m + 1).map_values(
                        |c: DiscoveredCharacteristic<H, O>|
                            characteristic_record_of(c@, dv.uuid, with_characteristics),
                    ));
                }
            }
            proof {
                assert(chars.take(chars.len() as int) =~= chars);
                assert(dv.characteristics =~= chars.map_values(|c: DiscoveredCharacteristic<H, O>| c@));
                assert(record@.characteristics =~= service_record_of(dv, with_characteristics).characteristics);
                assert(record@ == service_record_of(dv, with_characteristics));
            }
            values.push(object_value);
            let ghost before = built@.map_values(|r: ServiceRecord<H, O>| r@);
            let ghost rv = record@;
            built.push(record);
            proof {
                assert(built@.map_values(|r: ServiceRecord<H, O>| r@) =~= before.push(rv));
                assert(target[k] == rv);
                assert(reported.take(k + 1) =~= reported.take(k).push(reported[k]));
                assert(service == reported[k]);
                assert(built@.map_values(|r: ServiceRecord<H, O>| r@) =~= target.take(k + 1));
                assert(values@ =~= reported.take(k + 1).map_values(
                    |d: DiscoveredService<H, O>| d.object_value,
                ));
            }
        }
        let ghost built_view = built@.map_values(|r: ServiceRecord<H, O>| r@);
        proof {
            assert(reported.take(reported.len() as int) =~= reported);
            assert(target.take(target.len() as int) =~= target);
            assert forall|i: int| 0 <= i < built@.len() implies service_record_wf(
                #[trigger] built_view[i],
            ) by {
                let r = built_view[i];
                assert(r == service_record_of(reported[i]@, with_characteristics));
                assert forall|j: int| 0 <= j < r.characteristics.len() implies (
                #[trigger] r.characteristics[j]).object_value is Some == r.characteristics_discovered by {
                    assert(r.characteristics[j] == characteristic_record_of(
                        reported[i]@.characteristics[j],
                        reported[i]@.uuid,
                        with_characteristics,
                    ));
                }
            }
            lemma_service_objects_all_present(built_view, values@, reported);
            assert forall|i: int| 0 <= i < built@.len() implies service_record_wf(#[trigger] built@[i]@) by {
                assert(built@[i]@ == built_view[i]);
            }
        }
        self.services_discovered = true;
        self.services = built;
        values
    }

    /// Every discovered characteristic of the cache as a selector entry, in
    /// discovery order; fails on a closed connection and when nothing has
    /// been discovered.
    pub fn selector_entries(&self) -> (res: Result<Vec<SelectorEntry<O>>, String>)
        ensures
            selector_entries_of(self.services_view()).len() == discovered_characteristic_count(
                self.services_view(),
            ),
            !self.live() ==> (res matches Err(e) && e@ == closed_message()),
            self.live() && selector_entries_of(self.services_view()).len() == 0 ==> (res matches Err(
                e,
            ) && e@ == no_characteristics_message()),
            self.live() && selector_entries_of(self.services_view()).len() > 0 ==> (res matches Ok(v)
                && v@.map_values(|e: SelectorEntry<O>| e@) == selector_entries_of(
                self.services_view(),
            )),
    {
        proof {
            use_type_invariant(self);
            assert forall|i: int| 0 <= i < self.services_view().len() implies service_record_wf(
                #[trigger] self.services_view()[i],
            ) by {
                assert(self.services_view()[i] == self.services@[i]@);
            }
            law_selector_sees_discovered_characteristics(self.services_view());
        }
        if let Err(e) = self.ensure_live() {
            return Err(e);
        }
        let mut entries: Vec<SelectorEntry<O>> = Vec::new();
        let n = self.services.len();
        for i in 0..n
            invariant
                n == self.services@.len(),
                entries@.map_values(|e: SelectorEntry<O>| e@) == selector_entries_of(
                    self.services_view().take(i as int),
                ),
        {
            let service = &self.services[i];
            let ghost prefix = entries@.map_values(|e: SelectorEntry<O>| e@);
            let ghost cs = service@.characteristics;
            let m = service.characteristics.len();
            for j in 0..m
                invariant
                    m == service.characteristics@.len(),
                    cs == service@.characteristics,
                    entries@.map_values(|e: SelectorEntry<O>| e@) == prefix + characteristic_entries(
                        cs.take(j as int),
                    ),
            {
                let c = &service.characteristics[j];
                let ghost before = entries@.map_values(|e: SelectorEntry<O>| e@);
                proof {
                    assert(cs.take(j + 1).drop_last() =~= cs.take(j as int));
                    assert(cs[j as int] == c@);
                }
                match c.object_value {
                    Some(object_value) => {
                        entries.push(
                            SelectorEntry {
                                service_uuid: c.service_uuid.clone(),
                                characteristic_uuid: c.uuid.clone(),
                                write: c.write,
                                write_without_response: c.write_without_response,
                                object_value,
                            },
                        );
                        proof {
                            assert(entries@.map_values(|e: SelectorEntry<O>| e@) =~= before.push(
                                entry_of(c@, object_value),
                            ));
                        }
                    },
                    None => {},
                }
            }
            proof {
                assert(cs.take(m as int) =~= cs);
                let sv = self.services_view();
                assert(sv.take(i + 1).drop_last() =~= sv.take(i as int));
                assert(sv[i as int] == service@);
            }
        }
        proof {
            assert(self.services_view().take(n as int) =~= self.services_view());
        }
        if entries.len() == 0 {
            return Err(String::from_str("No characteristics have been discovered yet"));
        }
        Ok(entries)
    }

    /// A selector over the discovered characteristics, with no filter set.
    pub fn select_characteristics(&self) -> (res: Result<CharacteristicSelector<O>, String>)
        ensures
            !self.live() ==> (res matches Err(e) && e@ == closed_message()),
            self.live() && selector_entries_of(self.services_view()).len() == 0 ==> (res matches Err(
                e,
            ) && e@ == no_characteristics_message()),
            self.live() && selector_entries_of(self.services_view()).len() > 0 ==> (res matches Ok(
                sel,
            ) && sel.entries_view() == selector_entries_of(self.services_view())
                && sel.filters().service is None && sel.filters().uuid is None
                && !sel.filters().require_write && !sel.filters().require_write_without_response
                && !sel.filters().require_write_with_response),
    {
        match self.selector_entries() {
            Ok(entries) => Ok(CharacteristicSelector::new(entries)),
            Err(message) => Err(message),
        }
    }

    /// The index of the first cached service with this UUID.
    pub fn find_service(&self, service_uuid: &str) -> (res: Option<usize>)
        ensures
            match res {
                Some(i) => is_first_service(self.services_view(), service_uuid@, i as int),
                None => no_service(self.services_view(), service_uuid@),
            },
    {
        let n = self.services.len();
        for i in 0..n
            invariant
                n == self.services@.len(),
                forall|j: int| 0 <= j < i ==> (#[trigger] self.services_view()[j]).uuid != service_uuid@,
        {
            if crate::text::text_eq(self.services[i].uuid.as_str(), service_uuid) {
                return Some(i);
            }
        }
        None
    }

    /// First step of discovering a service's characteristics: fails on a
    /// closed connection or an unknown service; gives the cached
    /// `Characteristic` objects when they were discovered before; else lists
    /// the characteristics for which objects are to be made.
    pub fn begin_characteristic_discovery(&self, service_uuid: &str) -> (res: Result<
        CharacteristicDiscovery<O>,
        String,
    >)
        ensures
            !self.live() ==> (res matches Err(e) && e@ == closed_message()),
            self.live() && no_service(self.services_view(), service_uuid@) ==> (res matches Err(e)
                && e@ == service_not_found_message(service_uuid@)),
            self.live() ==> forall|i: int| #[trigger]
                is_first_service(self.services_view(), service_uuid@, i) ==> {
                    let r = self.services_view()[i];
                    if r.characteristics_discovered {
                        res matches Ok(CharacteristicDiscovery::Cached(v)) && v@
                            == characteristic_objects(r.characteristics)
                    } else {
                        res matches Ok(CharacteristicDiscovery::Pending(p)) && p@.map_values(
                            |q: PendingCharacteristic<O>| q@,
                        ) == r.characteristics.map_values(
                            |c: CharacteristicRecordView<H, O>| pending_of(c),
                        )
                    }
                },
    {
        if let Err(e) = self.ensure_live() {
            return Err(e);
        }
        let i = match self.find_service(service_uuid) {
            Some(i) => i,
            None => {
                return Err(
                    String::from_str("Service ").concat(service_uuid).concat(" not found"),
                );
            },
        };
        proof {
            lemma_first_service_unique(self.services_view(), service_uuid@, i as int);
        }
        let service = &self.services[i];
        let ghost cs = service@.characteristics;
        let m = service.characteristics.len();
        if service.characteristics_discovered {
            let mut out: Vec<O> = Vec::new();
            for j in 0..m
                invariant
                    m == service.characteristics@.len(),
                    cs == service@.characteristics,
                    out@ == characteristic_objects(cs.take(j as int)),
            {
                proof {
                    let f = |c: CharacteristicRecordView<H, O>| c.object_value;
                    assert(cs.take(j + 1).map_values(f).drop_last() =~= cs.take(j as int).map_values(f));
                    assert(cs[j as int] == service.characteristics[j as int]@);
                }
                match service.characteristics[j].object_value {
                    Some(o) => out.push(o),
                    None => {},
                }
            }
            proof {
                assert(cs.take(m as int) =~= cs);
            }
            return Ok(CharacteristicDiscovery::Cached(out));
        }
        let mut pending: Vec<PendingCharacteristic<O>> = Vec::new();
        for j in 0..m
            invariant
                m == service.characteristics@.len(),
                cs == service@.characteristics,
                pending@.map_values(|q: PendingCharacteristic<O>| q@) == cs.take(j as int).map_values(
                    |c: CharacteristicRecordView<H, O>| pending_of(c),
                ),
        {
            let c = &service.characteristics[j];
            let ghost before = pending@.map_values(|q: PendingCharacteristic<O>| q@);
            pending.push(
                PendingCharacteristic {
                    service_uuid: c.service_uuid.clone(),
                    uuid: c.uuid.clone(),
                    uuid_value: c.uuid_value,
                    properties_value: c.properties_value,
                },
            );
            proof {
                assert(cs[j as int] == c@);
                assert(pending@.map_values(|q: PendingCharacteristic<O>| q@) =~= before.push(pending_of(c@)));
                assert(cs.take(j + 1) =~= cs.take(j as int).push(cs[j as int]));
                assert(pending@.map_values(|q: PendingCharacteristic<O>| q@) =~= cs.take(j + 1).map_values(
                    |c: CharacteristicRecordView<H, O>| pending_of(c),
                ));
            }
        }
        proof {
            assert(cs.take(m as int) =~= cs);
        }
        Ok(CharacteristicDiscovery::Pending(pending))
    }

    /// Second step of discovering a service's characteristics: stores the
    /// objects made for them, in order, and marks them discovered. Returns
    /// the objects.
    pub fn finish_characteristic_discovery(&mut self, service_uuid: &str, objects: Vec<O>) -> (res:
        Vec<O>)
        requires
            exists|i: int|
                #[trigger] is_first_service(old(self).services_view(), service_uuid@, i)
                    && !old(self).services_view()[i].characteristics_discovered
                    && objects@.len() == old(self).services_view()[i].characteristics.len(),
        ensures
            final(self).live() == old(self).live(),
            final(self).backend_view() == old(self).backend_view(),
            final(self).discovered() == old(self).discovered(),
            res@ == objects@,
            forall|i: int| #[trigger]
                is_first_service(old(self).services_view(), service_uuid@, i)
                    ==> final(self).services_view() == old(self).services_view().update(
                    i,
                    with_objects(old(self).services_view()[i], objects@),
                ),
    {
        proof {
            use_type_invariant(&*self);
        }
        let ghost old_view = self.services_view();
        let i = match self.find_service(service_uuid) {
            Some(i) => i,
            None => {
                proof {
                    let k = choose|k: int| #[trigger] is_first_service(old_view, service_uuid@, k);
                    assert(old_view[k].uuid == service_uuid@);
                }
                return objects;
            },
        };
        proof {
            lemma_first_service_unique(old_view, service_uuid@, i as int);
        }
        let ghost r = old_view[i as int];
        let mut services: Vec<ServiceRecord<H, O>> = Vec::new();
        std::mem::swap(&mut services, &mut self.services);
        assert(services@.map_values(|s: ServiceRecord<H, O>| s@) == old_view);
        let mut service = services.remove(i);
        assert(service@ == r);
        let mut chars: Vec<CharacteristicRecord<H, O>> = Vec::new();
        std::mem::swap(&mut chars, &mut service.characteristics);
        let m = chars.len();
        let mut updated: Vec<CharacteristicRecord<H, O>> = Vec::new();
        let ghost cs = r.characteristics;
        let ghost target = with_objects(r, objects@).characteristics;
        let mut j: usize = 0;
        while j < m
            invariant
                j <= m,
                m == objects@.len(),
                m == cs.len(),
                cs == r.characteristics,
                target == with_objects(r, objects@).characteristics,
                target.len() == m,
                chars@.len() == m - j,
                forall|k: int| 0 <= k < m - j ==> (#[trigger] chars@[k])@ == cs[k + j],
                updated@.map_values(|c: CharacteristicRecord<H, O>| c@) == target.take(j as int),
            decreases m - j,
        {
            let mut c = chars.remove(0);
            proof {
                assert(c@ == cs[j as int]);
            }
            c.object_value = Some(objects[j]);
            let ghost before = updated@.map_values(|c: CharacteristicRecord<H, O>| c@);
            updated.push(c);
            proof {
                assert(updated@.map_values(|c: CharacteristicRecord<H, O>| c@) =~= before.push(c@));
                assert(c@ == target[j as int]);
                assert(target.take(j + 1) =~= target.take(j as int).push(target[j as int]));
                assert(updated@.map_values(|c: CharacteristicRecord<H, O>| c@) =~= target.take(
                    j + 1,
                ));
            }
            j = j + 1;
        }
        proof {
            assert(target.take(m as int) =~= target);
        }
        service.characteristics = updated;
        service.characteristics_discovered = true;
        assert(service@.characteristics =~= with_objects(r, objects@).characteristics);
        assert(service@ == with_objects(r, objects@));
        services.insert(i, service);
        let ghost new_view = services@.map_values(|s: ServiceRecord<H, O>| s@);
        proof {
            assert(new_view =~= old_view.update(i as int, with_objects(r, objects@)));
            assert forall|k: int| 0 <= k < services@.len() implies service_record_wf(
                #[trigger] new_view[k],
            ) by {
                if k == i {
                    let w = with_objects(r, objects@);
                    assert forall|q: int| 0 <= q < w.characteristics.len() implies (
                    #[trigger] w.characteristics[q]).object_value is Some
                        == w.characteristics_discovered by {
                        assert(w.characteristics[q].object_value == Some(objects@[q]));
                    }
                } else {
                    assert(new_view[k] == old_view[k]);
                }
            }
            assert forall|k: int| 0 <= k < services@.len() implies service_record_wf(#[trigger] services@[k]@) by {
                assert(services@[k]@ == new_view[k]);
            }
        }
        self.services = services;
        objects
    }

    /// The characteristic a `Characteristic` object writes to: the first
    /// characteristic with this UUID in the first service with this service
    /// UUID. A later service with the same UUID is not searched.
    pub fn find_characteristic(&self, service_uuid: &str, characteristic_uuid: &str) -> (res:
        Result<&CharacteristicRecord<H, O>, String>)
        ensures
            forall|i: int, j: int|
                #![trigger is_first_service(self.services_view(), service_uuid@, i), is_first_characteristic(self.services_view()[i].characteristics, characteristic_uuid@, j)]
                is_first_service(self.services_view(), service_uuid@, i)
                    && is_first_characteristic(
                    self.services_view()[i].characteristics,
                    characteristic_uuid@,
                    j,
                ) ==> (res matches Ok(c) && c@ == self.services_view()[i].characteristics[j]),
            no_service(self.services_view(), service_uuid@) ==> (res matches Err(e) && e@
                == characteristic_not_found_message()),
            forall|i: int| #[trigger]
                is_first_service(self.services_view(), service_uuid@, i) && no_characteristic(
                    self.services_view()[i].characteristics,
                    characteristic_uuid@,
                ) ==> (res matches Err(e) && e@ == characteristic_not_found_message()),
    {
        let i = match self.find_service(service_uuid) {
            Some(i) => i,
            None => {
                return Err(String::from_str("Characteristic not found"));
            },
        };
        proof {
            lemma_first_service_unique(self.services_view(), service_uuid@, i as int);
        }
        let service = &self.services[i];
        let ghost cs = service@.characteristics;
        let m = service.characteristics.len();
        for j in 0..m
            invariant
                m == service.characteristics@.len(),
                cs == service@.characteristics,
                i < self.services@.len(),
                self.services_view()[i as int] == service@,
                is_first_service(self.services_view(), service_uuid@, i as int),
                forall|k: int| #[trigger] is_first_service(self.services_view(), service_uuid@, k) ==> k == i,
                !no_service(self.services_view(), service_uuid@),
                forall|k: int| 0 <= k < j ==> (#[trigger] cs[k]).uuid != characteristic_uuid@,
        {
            proof {
                assert(cs[j as int] == service.characteristics[j as int]@);
            }
            if crate::text::text_eq(service.characteristics[j].uuid.as_str(), characteristic_uuid) {
                proof {
                    assert forall|q: int| #[trigger]
                        is_first_characteristic(cs, characteristic_uuid@, q) implies q == j by {
                        if q < j {
                            assert(cs[q].uuid != characteristic_uuid@);
                        }
                        if j < q {
                            assert(cs[j as int].uuid != characteristic_uuid@);
                        }
                    }
                }
                return Ok(&service.characteristics[j]);
            }
        }
        Err(String::from_str("Characteristic not found"))
    }

    /// What `disconnect` has to do: nothing on a closed connection, which
    /// makes disconnecting idempotent; close the backend connection otherwise.
    pub fn begin_disconnect(&self) -> (res: DisconnectStep)
        ensures
            self.live() <==> res == DisconnectStep::CloseBackend,
    {
        if self.live {
            DisconnectStep::CloseBackend
        } else {
            DisconnectStep::AlreadyClosed
        }
    }

    /// Records the backend's answer to closing the connection: on success the
    /// connection is closed for good (the cache stays, but every operation
    /// now fails with the closed message); on failure nothing changes and the
    /// backend's message is handed back.
    pub fn finish_disconnect(&mut self, result: Result<(), String>) -> (res: Result<(), String>)
        ensures
            res == result,
            result is Ok ==> !final(self).live(),
            result is Err ==> final(self).live() == old(self).live(),
            final(self).backend_view() == old(self).backend_view(),
            final(self).discovered() == old(self).discovered(),
            final(self).services_view() == old(self).services_view(),
    {
        proof {
            use_type_invariant(&*self);
        }
        if result.is_ok() {
            self.live = false;
        }
        result
    }

    /// What `discoverServices` does: fail on a closed connection, answer
    /// from the cache once services were discovered, else ask the backend
    /// (and then `populate_services` without characteristics).
    pub fn begin_service_discovery(&self) -> (res: Result<ServiceDiscovery<O>, String>)
        ensures
            !self.live() ==> (res matches Err(e) && e@ == closed_message()),
            self.live() && self.discovered() ==> (res matches Ok(ServiceDiscovery::Cached(v))
                && v@ == service_objects(self.services_view())),
            self.live() && !self.discovered() ==> res matches Ok(ServiceDiscovery::AskBackend),
    {
        if let Err(e) = self.ensure_live() {
            return Err(e);
        }
        if self.services_discovered {
            Ok(ServiceDiscovery::Cached(self.service_objects()))
        } else {
            Ok(ServiceDiscovery::AskBackend)
        }
    }

    /// Everything a characteristic write needs before the backend call, in
    /// the order it is checked: the connection must be open, the data must
    /// be binary (its conversion error is reported otherwise), and the
    /// characteristic must be in the cache. The mode comes from the `mode`
    /// option.
    pub fn prepare_write<'a>(
        &'a self,
        service_uuid: &str,
        characteristic_uuid: &str,
        data: Result<Vec<u8>, String>,
        mode: Option<&str>,
    ) -> (res: Result<(&'a CharacteristicRecord<H, O>, Vec<u8>, WriteMode), WriteRefusal>)
        ensures
            !self.live() ==> (res matches Err(WriteRefusal::InvalidState(e)) && e@ == closed_message()),
            self.live() && data is Err ==> (res matches Err(WriteRefusal::NotBinary(e)) && e@ == binary_data_message(
                data->Err_0@,
            )),
            self.live() && data is Ok ==> {
                &&& no_service(self.services_view(), service_uuid@) ==> (res matches Err(WriteRefusal::InvalidState(e))
                    && e@ == characteristic_not_found_message())
                &&& forall|i: int| #[trigger]
                    is_first_service(self.services_view(), service_uuid@, i) && no_characteristic(
                        self.services_view()[i].characteristics,
                        characteristic_uuid@,
                    ) ==> (res matches Err(WriteRefusal::InvalidState(e)) && e@
                        == characteristic_not_found_message())
                &&& forall|i: int, j: int|
                    #![trigger is_first_service(self.services_view(), service_uuid@, i), is_first_characteristic(self.services_view()[i].characteristics, characteristic_uuid@, j)]
                    is_first_service(self.services_view(), service_uuid@, i)
                        && is_first_characteristic(
                        self.services_view()[i].characteristics,
                        characteristic_uuid@,
                        j,
                    ) ==> (res matches Ok(w) && w.0@ == self.services_view()[i].characteristics[j]
                        && w.1@ == data->Ok_0@ && w.2 == crate::options::write_mode_of(mode))
            },
    {
        if let Err(e) = self.ensure_live() {
            return Err(WriteRefusal::InvalidState(e));
        }
        let bytes = match data {
            Ok(bytes) => bytes,
            Err(message) => {
                return Err(
                    WriteRefusal::NotBinary(
                        String::from_str("write expects binary data: ").concat(message.as_str()),
                    ),
                );
            },
        };
        let write_mode = crate::options::parse_write_mode(mode);
        match self.find_characteristic(service_uuid, characteristic_uuid) {
            Ok(c) => Ok((c, bytes, write_mode)),
            Err(e) => Err(WriteRefusal::InvalidState(e)),
        }
    }
}

/// Why a write is refused before any backend call.
#[derive(Debug)]
pub enum WriteRefusal {
    /// The connection is closed or the characteristic is not in its cache:
    /// the `Characteristic` object is no longer usable (a BTError with code
    /// `invalidState`).
    InvalidState(String),
    /// The data is not binary: a usage error of the caller.
    NotBinary(String),
}

/// What `discoverServices` does next.
pub enum ServiceDiscovery<O> {
    /// Services were discovered before: their cached objects.
    Cached(Vec<O>),
    /// Ask the backend, then cache what it reports.
    AskBackend,
}

/// The message when `write` gets data that is not binary.
pub open spec fn binary_data_message(reason: Seq<char>) -> Seq<char> {
    "write expects binary data: "@ + reason
}

/// `i` is the first cached service with this UUID.
pub open spec fn is_first_service<H, O>(
    services: Seq<ServiceRecordView<H, O>>,
    uuid: Seq<char>,
    i: int,
) -> bool {
    &&& 0 <= i < services.len()
    &&& services[i].uuid == uuid
    &&& forall|j: int| 0 <= j < i ==> (#[trigger] services[j]).uuid != uuid
}

/// No cached service has this UUID.
pub open spec fn no_service<H, O>(services: Seq<ServiceRecordView<H, O>>, uuid: Seq<char>) -> bool {
    forall|j: int| 0 <= j < services.len() ==> (#[trigger] services[j]).uuid != uuid
}

/// There is only one first service with a UUID.
pub proof fn lemma_first_service_unique<H, O>(
    services: Seq<ServiceRecordView<H, O>>,
    uuid: Seq<char>,
    i: int,
)
    requires
        is_first_service(services, uuid, i),
    ensures
        forall|k: int| #[trigger] is_first_service(services, uuid, k) ==> k == i,
        !no_service(services, uuid),
{
    assert forall|k: int| #[trigger] is_first_service(services, uuid, k) implies k == i by {
        if k < i {
            assert(services[k].uuid != uuid);
        }
        if i < k {
            assert(services[i].uuid != uuid);
        }
    }
    assert(services[i].uuid == uuid);
}

/// `j` is the first characteristic with this UUID.
pub open spec fn is_first_characteristic<H, O>(
    cs: Seq<CharacteristicRecordView<H, O>>,
    uuid: Seq<char>,
    j: int,
) -> bool {
    &&& 0 <= j < cs.len()
    &&& cs[j].uuid == uuid
    &&& forall|k: int| 0 <= k < j ==> (#[trigger] cs[k]).uuid != uuid
}

/// No characteristic has this UUID.
pub open spec fn no_characteristic<H, O>(cs: Seq<CharacteristicRecordView<H, O>>, uuid: Seq<char>) -> bool {
    forall|k: int| 0 <= k < cs.len() ==> (#[trigger] cs[k]).uuid != uuid
}

/// The message when a write target is not in the cache.
pub open spec fn characteristic_not_found_message() -> Seq<char> {
    "Characteristic not found"@
}

/// What `disconnect` does next.
#[derive(PartialEq, Eq, Structural)]
pub enum DisconnectStep {
    /// The connection is closed already: succeed without backend I/O.
    AlreadyClosed,
    /// Close the backend connection, then `finish_disconnect`.
    CloseBackend,
}

/// The message when a service UUID is not in the cache.
pub open spec fn service_not_found_message(uuid: Seq<char>) -> Seq<char> {
    "Service "@ + uuid + " not found"@
}

/// A characteristic whose `Characteristic` object is still to be made.
pub struct PendingCharacteristic<O> {
    pub service_uuid: String,
    pub uuid: String,
    pub uuid_value: O,
    pub properties_value: O,
}

/// Mathematical view of a `PendingCharacteristic`.
pub struct PendingCharacteristicView<O> {
    pub service_uuid: Seq<char>,
    pub uuid: Seq<char>,
    pub uuid_value: O,
    pub properties_value: O,
}

impl<O> View for PendingCharacteristic<O> {
    type V = PendingCharacteristicView<O>;

    open spec fn view(&self) -> PendingCharacteristicView<O> {
        PendingCharacteristicView {
            service_uuid: self.service_uuid@,
            uuid: self.uuid@,
            uuid_value: self.uuid_value,
            properties_value: self.properties_value,
        }
    }
}

/// What an object is made from for a cached characteristic.
pub open spec fn pending_of<H, O>(c: CharacteristicRecordView<H, O>) -> PendingCharacteristicView<O> {
    PendingCharacteristicView {
        service_uuid: c.service_uuid,
        uuid: c.uuid,
        uuid_value: c.uuid_value,
        properties_value: c.properties_value,
    }
}

/// The outcome of the first step of characteristic discovery.
pub enum CharacteristicDiscovery<O> {
    /// Discovered before: the cached objects.
    Cached(Vec<O>),
    /// Not yet: the characteristics that need objects, in order.
    Pending(Vec<PendingCharacteristic<O>>),
}

/// A service whose characteristics received these objects, in order, and
/// are now discovered.
pub open spec fn with_objects<H, O>(r: ServiceRecordView<H, O>, objects: Seq<O>) -> ServiceRecordView<
    H,
    O,
> {
    ServiceRecordView {
        characteristics_discovered: true,
        characteristics: Seq::new(
            r.characteristics.len(),
            |j: int| CharacteristicRecordView { object_value: Some(objects[j]), ..r.characteristics[j] },
        ),
        ..r
    }
}

/// The selector entry of a cached characteristic with its object.
pub open spec fn entry_of<H, O>(c: CharacteristicRecordView<H, O>, o: O) -> SelectorEntryView<O> {
    SelectorEntryView {
        service_uuid: c.service_uuid,
        characteristic_uuid: c.uuid,
        write: c.write,
        write_without_response: c.write_without_response,
        object_value: o,
    }
}

/// Selector entries of the characteristics that have objects, in order.
pub open spec fn characteristic_entries<H, O>(
    cs: Seq<CharacteristicRecordView<H, O>>,
) -> Seq<SelectorEntryView<O>>
    decreases cs.len(),
{
    if cs.len() == 0 {
        seq![]
    } else {
        let rest = characteristic_entries(cs.drop_last());
        match cs.last().object_value {
            Some(o) => rest.push(entry_of(cs.last(), o)),
            None => rest,
        }
    }
}

/// Selector entries of every cached service, service by service.
pub open spec fn selector_entries_of<H, O>(
    services: Seq<ServiceRecordView<H, O>>,
) -> Seq<SelectorEntryView<O>>
    decreases services.len(),
{
    if services.len() == 0 {
        seq![]
    } else {
        selector_entries_of(services.drop_last()) + characteristic_entries(
            services.last().characteristics,
        )
    }
}

/// The message when a selector is asked for before any characteristic is discovered.
pub open spec fn no_characteristics_message() -> Seq<char> {
    "No characteristics have been discovered yet"@
}

/// Invariant of one cached service.
pub open spec fn service_record_wf<H, O>(r: ServiceRecordView<H, O>) -> bool {
    &&& r.object_value is Some
    &&& forall|j: int|
        0 <= j < r.characteristics.len() ==> (#[trigger] r.characteristics[j]).object_value is Some
            == r.characteristics_discovered
}

/// The message of every operation on a closed connection.
pub open spec fn closed_message() -> Seq<char> {
    "connection is closed"@
}

/// Where every cached service has its object, the objects are exactly those.
proof fn lemma_service_objects_all_present<H, O>(
    s: Seq<ServiceRecordView<H, O>>,
    values: Seq<O>,
    reported: Seq<DiscoveredService<H, O>>,
)
    requires
        s.len() == reported.len(),
        values == reported.map_values(|d: DiscoveredService<H, O>| d.object_value),
        forall|i: int| 0 <= i < s.len() ==> (#[trigger] s[i]).object_value == Some(reported[i].object_value),
    ensures
        service_objects(s) == values,
    decreases s.len(),
{
    if s.len() > 0 {
        let n = s.len() - 1;
        assert(values.drop_last() =~= reported.drop_last().map_values(
            |d: DiscoveredService<H, O>| d.object_value,
        ));
        lemma_service_objects_all_present(s.drop_last(), values.drop_last(), reported.drop_last());
        let f = |r: ServiceRecordView<H, O>| r.object_value;
        assert(s.map_values(f).drop_last() =~= s.drop_last().map_values(f));
        assert(values =~= values.drop_last().push(values[n]));
    } else {
        assert(values =~= seq![]);
    }
}

/// One more service in the prefix adds its object, if any.
proof fn lemma_service_objects_step<H, O>(s: Seq<ServiceRecordView<H, O>>, i: int)
    requires
        0 <= i < s.len(),
    ensures
        service_objects(s.take(i + 1)) == match s[i].object_value {
            Some(o) => service_objects(s.take(i)).push(o),
            None => service_objects(s.take(i)),
        },
{
    let f = |r: ServiceRecordView<H, O>| r.object_value;
    assert(s.take(i + 1).map_values(f).drop_last() =~= s.take(i).map_values(f));
}

/// How many characteristics the cache holds for services whose
/// characteristics have been discovered.
pub open spec fn discovered_characteristic_count<H, O>(services: Seq<ServiceRecordView<H, O>>) -> nat
    decreases services.len(),
{
    if services.len() == 0 {
        0
    } else {
        discovered_characteristic_count(services.drop_last()) + if services.last().characteristics_discovered {
            services.last().characteristics.len()
        } else {
            0
        }
    }
}

/// Entries of characteristics that all have objects, or all lack them.
proof fn lemma_characteristic_entries_len<H, O>(cs: Seq<CharacteristicRecordView<H, O>>, present: bool)
    requires
        forall|j: int| 0 <= j < cs.len() ==> (#[trigger] cs[j]).object_value is Some == present,
    ensures
        characteristic_entries(cs).len() == if present { cs.len() } else { 0 },
    decreases cs.len(),
{
    if cs.len() > 0 {
        lemma_characteristic_entries_len(cs.drop_last(), present);
        assert(cs.last() == cs[cs.len() - 1]);
    }
}

/// The selector sees exactly the characteristics of the services whose
/// characteristics were discovered: all of them after a full discovery
/// (`connectAndDiscover`), none after services-only discovery.
pub proof fn law_selector_sees_discovered_characteristics<H, O>(services: Seq<ServiceRecordView<H, O>>)
    requires
        forall|i: int| 0 <= i < services.len() ==> service_record_wf(#[trigger] services[i]),
    ensures
        selector_entries_of(services).len() == discovered_characteristic_count(services),
    decreases services.len(),
{
    if services.len() > 0 {
        let last = services.last();
        assert(service_record_wf(services[services.len() - 1]));
        assert forall|i: int| 0 <= i < services.drop_last().len() implies service_record_wf(
            #[trigger] services.drop_last()[i],
        ) by {
            assert(service_record_wf(services[i]));
        }
        law_selector_sees_discovered_characteristics(services.drop_last());
        lemma_characteristic_entries_len(last.characteristics, last.characteristics_discovered);
    }
}

/// A discovered service is cached with every characteristic the backend
/// reported for it, in order, each under the reported UUID and with the
/// reported `write` and `write_without_response` flags.
pub proof fn law_cached_characteristics_keep_reported_flags<H, O>(
    d: DiscoveredServiceView<H, O>,
    with_characteristics: bool,
)
    ensures
        service_record_of(d, with_characteristics).characteristics.len() == d.characteristics.len(),
        forall|j: int|
            0 <= j < d.characteristics.len() ==> {
                let r = #[trigger] service_record_of(d, with_characteristics).characteristics[j];
                &&& r.uuid == d.characteristics[j].handle.uuid
                &&& r.write == d.characteristics[j].handle.write
                &&& r.write_without_response == d.characteristics[j].handle.write_without_response
            },
{
}

/// Every selector entry of a service's characteristics is one of those
/// characteristics with its object, unchanged: same service UUID, UUID,
/// `write` and `write_without_response` flags.
pub proof fn law_characteristic_entries_carry_flags<H, O>(cs: Seq<CharacteristicRecordView<H, O>>)
    ensures
        forall|k: int|
            #![trigger characteristic_entries(cs)[k]]
            0 <= k < characteristic_entries(cs).len() ==> exists|j: int|
                #![trigger cs[j]]
                0 <= j < cs.len() && cs[j].object_value == Some(characteristic_entries(cs)[k].object_value)
                    && cs[j].service_uuid == characteristic_entries(cs)[k].service_uuid
                    && cs[j].uuid == characteristic_entries(cs)[k].characteristic_uuid
                    && cs[j].write == characteristic_entries(cs)[k].write
                    && cs[j].write_without_response == characteristic_entries(cs)[k].write_without_response,
    decreases cs.len(),
{
    if cs.len() > 0 {
        let init = cs.drop_last();
        law_characteristic_entries_carry_flags(init);
        let rest = characteristic_entries(init);
        let all = characteristic_entries(cs);
        assert forall|k: int| #![trigger all[k]] 0 <= k < all.len() implies exists|j: int|
            #![trigger cs[j]]
            0 <= j < cs.len() && cs[j].object_value == Some(all[k].object_value) && cs[j].service_uuid
                == all[k].service_uuid && cs[j].uuid == all[k].characteristic_uuid && cs[j].write
                == all[k].write && cs[j].write_without_response == all[k].write_without_response by {
            if k < rest.len() {
                assert(all[k] == rest[k]);
                let j = choose|j: int|
                    #![trigger init[j]]
                    0 <= j < init.len() && init[j].object_value == Some(rest[k].object_value)
                        && init[j].service_uuid == rest[k].service_uuid && init[j].uuid
                        == rest[k].characteristic_uuid && init[j].write == rest[k].write
                        && init[j].write_without_response == rest[k].write_without_response;
                assert(cs[j] == init[j]);
            } else {
                let j = cs.len() - 1;
                assert(cs[j] == cs.last());
            }
        }
    }
}

/// Every selector entry of a connection is one of its cached
/// characteristics, unchanged: it carries that characteristic's service
/// UUID, UUID, `write` and `write_without_response` flags and its object.
pub proof fn law_selector_entries_carry_cached_flags<H, O>(services: Seq<ServiceRecordView<H, O>>)
    ensures
        forall|k: int|
            #![trigger selector_entries_of(services)[k]]
            0 <= k < selector_entries_of(services).len() ==> exists|i: int, j: int|
                #![trigger services[i].characteristics[j]]
                0 <= i < services.len() && 0 <= j < services[i].characteristics.len()
                    && services[i].characteristics[j].object_value == Some(
                    selector_entries_of(services)[k].object_value,
                ) && services[i].characteristics[j].service_uuid == selector_entries_of(
                    services,
                )[k].service_uuid && services[i].characteristics[j].uuid == selector_entries_of(
                    services,
                )[k].characteristic_uuid && services[i].characteristics[j].write
                    == selector_entries_of(services)[k].write
                    && services[i].characteristics[j].write_without_response == selector_entries_of(
                    services,
                )[k].write_without_response,
    decreases services.len(),
{
    if services.len() > 0 {
        let init = services.drop_last();
        law_selector_entries_carry_cached_flags(init);
        let front = selector_entries_of(init);
        let cs = services.last().characteristics;
        law_characteristic_entries_carry_flags(cs);
        let back = characteristic_entries(cs);
        let all = selector_entries_of(services);
        assert(all == front + back);
        assert forall|k: int| #![trigger all[k]] 0 <= k < all.len() implies exists|i: int, j: int|
            #![trigger services[i].characteristics[j]]
            0 <= i < services.len() && 0 <= j < services[i].characteristics.len()
                && services[i].characteristics[j].object_value == Some(all[k].object_value)
                && services[i].characteristics[j].service_uuid == all[k].service_uuid
                && services[i].characteristics[j].uuid == all[k].characteristic_uuid
                && services[i].characteristics[j].write == all[k].write
                && services[i].characteristics[j].write_without_response
                == all[k].write_without_response by {
            if k < front.len() {
                assert(all[k] == front[k]);
                let (i, j) = choose|i: int, j: int|
                    #![trigger init[i].characteristics[j]]
                    0 <= i < init.len() && 0 <= j < init[i].characteristics.len()
                        && init[i].characteristics[j].object_value == Some(front[k].object_value)
                        && init[i].characteristics[j].service_uuid == front[k].service_uuid
                        && init[i].characteristics[j].uuid == front[k].characteristic_uuid
                        && init[i].characteristics[j].write == front[k].write
                        && init[i].characteristics[j].write_without_response
                        == front[k].write_without_response;
                assert(services[i] == init[i]);
            } else {
                let m = k - front.len();
                assert(all[k] == back[m]);
                let j = choose|j: int|
                    #![trigger cs[j]]
                    0 <= j < cs.len() && cs[j].object_value == Some(back[m].object_value)
                        && cs[j].service_uuid == back[m].service_uuid && cs[j].uuid
                        == back[m].characteristic_uuid && cs[j].write == back[m].write
                        && cs[j].write_without_response == back[m].write_without_response;
                let i = services.len() - 1;
                assert(services[i] == services.last());
                assert(services[i].characteristics[j] == cs[j]);
            }
        }
    }
}

} // verus!
