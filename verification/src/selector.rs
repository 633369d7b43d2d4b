//! The characteristic selector: a mutable, fluent set of filters over the
//! characteristics that a connection has already discovered. Listing reads
//! only those cached entries; it never causes Bluetooth I/O.

use vstd::prelude::*;
use crate::uuids::{normalized_uuid, normalized_uuid_text};

verus! {

/// One discovered characteristic as the selector sees it.
#[derive(Debug)]
pub struct SelectorEntry<O> {
    pub service_uuid: String,
    pub characteristic_uuid: String,
    pub write: bool,
    pub write_without_response: bool,
    pub object_value: O,
}

/// Mathematical view of a `SelectorEntry`.
pub struct SelectorEntryView<O> {
    pub service_uuid: Seq<char>,
    pub characteristic_uuid: Seq<char>,
    pub write: bool,
    pub write_without_response: bool,
    pub object_value: O,
}

impl<O> View for SelectorEntry<O> {
    type V = SelectorEntryView<O>;

    open spec fn view(&self) -> SelectorEntryView<O> {
        SelectorEntryView {
            service_uuid: self.service_uuid@,
            characteristic_uuid: self.characteristic_uuid@,
            write: self.write,
            write_without_response: self.write_without_response,
            object_value: self.object_value,
        }
    }
}

/// The filters of a selector.
pub struct SelectorFilters {
    pub service: Option<Seq<char>>,
    pub uuid: Option<Seq<char>>,
    pub require_write: bool,
    pub require_write_without_response: bool,
    pub require_write_with_response: bool,
}

/// Whether an entry passes every filter. "With response" means writable
/// and not writable without response.
pub open spec fn entry_matches<O>(f: SelectorFilters, e: SelectorEntryView<O>) -> bool {
    &&& (f.service matches Some(s) ==> e.service_uuid == s)
    &&& (f.uuid matches Some(u) ==> e.characteristic_uuid == u)
    &&& (f.require_write ==> e.write)
    &&& (f.require_write_without_response ==> e.write_without_response)
    &&& (f.require_write_with_response ==> e.write && !e.write_without_response)
}

/// The entries that pass the filters, in their original order.
pub open spec fn selected_entries<O>(
    entries: Seq<SelectorEntryView<O>>,
    f: SelectorFilters,
) -> Seq<SelectorEntryView<O>>
    decreases entries.len(),
{
    if entries.len() == 0 {
        seq![]
    } else {
        let rest = selected_entries(entries.drop_last(), f);
        if entry_matches(f, entries.last()) {
            rest.push(entries.last())
        } else {
            rest
        }
    }
}

/// The `Characteristic` objects that `list` returns.
pub open spec fn selected_objects<O>(entries: Seq<SelectorEntryView<O>>, f: SelectorFilters) -> Seq<O> {
    selected_entries(entries, f).map_values(|e: SelectorEntryView<O>| e.object_value)
}

/// A selector over a connection's discovered characteristics.
#[derive(Debug)]
pub struct CharacteristicSelector<O> {
    pub entries: Vec<SelectorEntry<O>>,
    pub service_filter: Option<String>,
    pub uuid_filter: Option<String>,
    pub require_write: bool,
    pub require_write_without_response: bool,
    pub require_write_with_response: bool,
}

/// The view of an optional string.
pub open spec fn opt_view(s: Option<String>) -> Option<Seq<char>> {
    match s {
        Some(t) => Some(t@),
        None => None,
    }
}

impl<O: Copy> CharacteristicSelector<O> {
    /// The entries, as views.
    pub open spec fn entries_view(&self) -> Seq<SelectorEntryView<O>> {
        self.entries@.map_values(|e: SelectorEntry<O>| e@)
    }

    /// The filters, as a value.
    pub open spec fn filters(&self) -> SelectorFilters {
        SelectorFilters {
            service: opt_view(self.service_filter),
            uuid: opt_view(self.uuid_filter),
            require_write: self.require_write,
            require_write_without_response: self.require_write_without_response,
            require_write_with_response: self.require_write_with_response,
        }
    }

    /// A selector over the given entries with no filter set.
    pub fn new(entries: Vec<SelectorEntry<O>>) -> (res: Self)
        ensures
            res.entries@ == entries@,
            res.filters() == (SelectorFilters {
                service: None,
                uuid: None,
                require_write: false,
                require_write_without_response: false,
                require_write_with_response: false,
            }),
    {
        CharacteristicSelector {
            entries,
            service_filter: None,
            uuid_filter: None,
            require_write: false,
            require_write_without_response: false,
            require_write_with_response: false,
        }
    }

    /// Keeps only characteristics of the service with this UUID (in any form
    /// that `normalized_uuid` accepts). Text that is no UUID clears the
    /// service filter instead.
    pub fn service(&mut self, service_uuid: String) -> (res: &mut Self)
        ensures
            res.entries == old(self).entries,
            res.filters() == (SelectorFilters {
                service: normalized_uuid_text(service_uuid@),
                ..old(self).filters()
            }),
            *final(self) == *final(res),
    {
        self.service_filter = match normalized_uuid(service_uuid.as_str()) {
            Ok(s) => Some(s),
            Err(_) => None,
        };
        self
    }

    /// Keeps only characteristics with this UUID (in any form that
    /// `normalized_uuid` accepts). Text that is no UUID clears the filter.
    pub fn uuid(&mut self, characteristic_uuid: String) -> (res: &mut Self)
        ensures
            res.entries == old(self).entries,
            res.filters() == (SelectorFilters {
                uuid: normalized_uuid_text(characteristic_uuid@),
                ..old(self).filters()
            }),
            *final(self) == *final(res),
    {
        self.uuid_filter = match normalized_uuid(characteristic_uuid.as_str()) {
            Ok(s) => Some(s),
            Err(_) => None,
        };
        self
    }

    /// Keeps only writable characteristics.
    pub fn writable(&mut self) -> (res: &mut Self)
        ensures
            res.entries == old(self).entries,
            res.filters() == (SelectorFilters { require_write: true, ..old(self).filters() }),
            *final(self) == *final(res),
    {
        self.require_write = true;
        self
    }

    /// Keeps only characteristics writable without response.
    #[allow(non_snake_case)]
    pub fn writeWithoutResponse(&mut self) -> (res: &mut Self)
        ensures
            res.entries == old(self).entries,
            res.filters() == (SelectorFilters {
                require_write_without_response: true,
                ..old(self).filters()
            }),
            *final(self) == *final(res),
    {
        self.require_write_without_response = true;
        self
    }

    /// Keeps only characteristics that are writable and not writable without
    /// response.
    #[allow(non_snake_case)]
    pub fn writeWithResponse(&mut self) -> (res: &mut Self)
        ensures
            res.entries == old(self).entries,
            res.filters() == (SelectorFilters {
                require_write_with_response: true,
                ..old(self).filters()
            }),
            *final(self) == *final(res),
    {
        self.require_write_with_response = true;
        self
    }

    /// Whether one entry passes the filters.
    fn accepts(&self, e: &SelectorEntry<O>) -> (res: bool)
        ensures
            res == entry_matches(self.filters(), e@),
    {
        let service_ok = match &self.service_filter {
            Some(f) => crate::text::text_eq(e.service_uuid.as_str(), f.as_str()),
            None => true,
        };
        let uuid_ok = match &self.uuid_filter {
            Some(f) => crate::text::text_eq(e.characteristic_uuid.as_str(), f.as_str()),
            None => true,
        };
        service_ok && uuid_ok && (!self.require_write || e.write) && (
        !self.require_write_without_response || e.write_without_response) && (
        !self.require_write_with_response || (e.write && !e.write_without_response))
    }

    /// The `Characteristic` objects of the entries that pass every filter, in
    /// the order the connection discovered them. Reads only the selector.
    pub fn list(&mut self) -> (res: Vec<O>)
        ensures
            *final(self) == *old(self),
            res@ == selected_objects(old(self).entries_view(), old(self).filters()),
    {
        let mut out: Vec<O> = Vec::new();
        let n = self.entries.len();
        for i in 0..n
            invariant
                n == self.entries@.len(),
                *self == *old(self),
                out@ == selected_objects(self.entries_view().take(i as int), self.filters()),
        {
            let ghost before = self.entries_view().take(i as int);
            proof {
                assert(self.entries_view().take(i + 1).drop_last() =~= before);
            }
            if self.accepts(&self.entries[i]) {
                out.push(self.entries[i].object_value);
            }
            proof {
                let f = |e: SelectorEntryView<O>| e.object_value;
                let sel = selected_entries(before, self.filters());
                assert(sel.push(self.entries_view()[i as int]).map_values(f) =~= sel.map_values(f).push(
                    self.entries[i as int].object_value,
                ));
            }
        }
        proof {
            assert(self.entries_view().take(n as int) =~= self.entries_view());
        }
        out
    }
}

/// `strict` keeps at most what `loose` keeps: it sets every flag that
/// `loose` sets, and every UUID filter of `loose` is set to the same text in
/// `strict`.
pub open spec fn refines(strict: SelectorFilters, loose: SelectorFilters) -> bool {
    &&& (loose.service is Some ==> strict.service == loose.service)
    &&& (loose.uuid is Some ==> strict.uuid == loose.uuid)
    &&& (loose.require_write ==> strict.require_write)
    &&& (loose.require_write_without_response ==> strict.require_write_without_response)
    &&& (loose.require_write_with_response ==> strict.require_write_with_response)
}

/// Listing is exactly filtering: an entry is listed if and only if it is
/// one of the selector's entries and passes every filter.
pub proof fn law_list_is_filter<O>(entries: Seq<SelectorEntryView<O>>, f: SelectorFilters)
    ensures
        forall|e: SelectorEntryView<O>|
            selected_entries(entries, f).contains(e) <==> entries.contains(e) && entry_matches(f, e),
    decreases entries.len(),
{
    if entries.len() > 0 {
        law_list_is_filter(entries.drop_last(), f);
        let rest = selected_entries(entries.drop_last(), f);
        assert forall|e: SelectorEntryView<O>|
            selected_entries(entries, f).contains(e) <==> entries.contains(e) && entry_matches(f, e) by {
            if entries.contains(e) && entry_matches(f, e) {
                let k = choose|k: int| 0 <= k < entries.len() && entries[k] == e;
                if k < entries.len() - 1 {
                    assert(entries.drop_last()[k] == e);
                    let m = choose|m: int| 0 <= m < rest.len() && rest[m] == e;
                    if entry_matches(f, entries.last()) {
                        assert(rest.push(entries.last())[m] == e);
                    }
                } else {
                    assert(rest.push(entries.last()).last() == e);
                }
            }
            if selected_entries(entries, f).contains(e) {
                let k = choose|k: int|
                    0 <= k < selected_entries(entries, f).len() && selected_entries(entries, f)[k] == e;
                if entry_matches(f, entries.last()) && k == rest.len() {
                    assert(entries[entries.len() - 1] == e);
                } else {
                    assert(rest[k] == e);
                    assert(rest.contains(e));
                    assert(entries.drop_last().contains(e));
                    let m = choose|m: int| 0 <= m < entries.drop_last().len() && entries.drop_last()[m] == e;
                    assert(entries[m] == e);
                }
            }
        }
    }
}

/// Narrowing a selector only drops entries: listing with stricter filters
/// is listing the looser selection again with the stricter filters.
pub proof fn law_narrowing_only_removes<O>(
    entries: Seq<SelectorEntryView<O>>,
    strict: SelectorFilters,
    loose: SelectorFilters,
)
    requires
        refines(strict, loose),
    ensures
        selected_entries(entries, strict) == selected_entries(selected_entries(entries, loose), strict),
    decreases entries.len(),
{
    if entries.len() > 0 {
        law_narrowing_only_removes(entries.drop_last(), strict, loose);
        let rest = selected_entries(entries.drop_last(), loose);
        if entry_matches(loose, entries.last()) {
            assert(rest.push(entries.last()).drop_last() =~= rest);
        }
    }
}

/// "With response" and "without response" together select nothing.
pub proof fn law_response_modes_exclusive<O>(entries: Seq<SelectorEntryView<O>>, f: SelectorFilters)
    requires
        f.require_write_with_response,
        f.require_write_without_response,
    ensures
        selected_entries(entries, f).len() == 0,
    decreases entries.len(),
{
    if entries.len() > 0 {
        law_response_modes_exclusive(entries.drop_last(), f);
    }
}

/// Each write filter on its own, with no service or UUID filter, selects
/// the entries by its own property, in order: `writable()` those with
/// `write`; `writeWithoutResponse()` those with `write_without_response`,
/// whatever their `write` flag; `writeWithResponse()` those with `write`
/// and without `write_without_response`. With no filter every entry is listed.
pub proof fn law_write_filters_select_by_flag<O>(entries: Seq<SelectorEntryView<O>>, f: SelectorFilters)
    requires
        f.service is None,
        f.uuid is None,
    ensures
        !f.require_write && f.require_write_without_response && !f.require_write_with_response
            ==> selected_entries(entries, f) == entries.filter(
            |e: SelectorEntryView<O>| e.write_without_response,
        ),
        f.require_write && !f.require_write_without_response && !f.require_write_with_response
            ==> selected_entries(entries, f) == entries.filter(|e: SelectorEntryView<O>| e.write),
        !f.require_write && !f.require_write_without_response && f.require_write_with_response
            ==> selected_entries(entries, f) == entries.filter(
            |e: SelectorEntryView<O>| e.write && !e.write_without_response,
        ),
        !f.require_write && !f.require_write_without_response && !f.require_write_with_response
            ==> selected_entries(entries, f) == entries,
    decreases entries.len(),
{
    reveal(Seq::filter);
    if entries.len() > 0 {
        law_write_filters_select_by_flag(entries.drop_last(), f);
        if !f.require_write && !f.require_write_without_response && !f.require_write_with_response {
            assert(entries.drop_last().push(entries.last()) =~= entries);
        }
    }
}

} // verus!
