//! Option structs that BoxLang code passes to `scan`, `requestDevice` and
//! `write`, after the VM glue has read them into plain values.

use vstd::prelude::*;
use vstd::string::StringExecFns;
use crate::backend::WriteMode;
use crate::backend::native::ScanOptions;
use crate::backend::wasm::RequestDeviceOptionsInput;
use crate::text::{str_to_lowercase, text_eq, to_lowercase};
use crate::uuids::{
    invalid_uuid_message, normalized_uuid, normalized_uuid_text, parse_uuidish, uuidish_value,
};

verus! {

/// An options argument as the VM hands it over: null (or absent), a value
/// that is not a struct, or a struct whose fields were read.
pub enum OptionsArgument<T> {
    Null,
    NotAStruct,
    Struct(T),
}

/// A struct key that should hold an array of strings.
pub enum StringListField {
    /// The key is not in the struct.
    Absent,
    /// The key holds something that is not an array.
    NotAnArray,
    /// The key holds an array; its elements as strings.
    Items(Vec<String>),
}

/// The fields of a `scan` options struct. `timeout_ms` is the `timeout`
/// number already converted to whole milliseconds.
pub struct ScanOptionsFields {
    pub timeout_ms: Option<u64>,
    pub name_prefix: Option<String>,
    pub services: StringListField,
}

/// The fields of a `requestDevice` options struct.
pub struct RequestDeviceFields {
    pub services: StringListField,
    pub optional_services: StringListField,
    pub name_prefix: Option<String>,
}

/// Scan duration when none is given, in milliseconds.
pub const DEFAULT_SCAN_TIMEOUT_MS: u64 = 3000;

/// The error for a string list key that holds no array.
pub open spec fn expected_array_message() -> Seq<char> {
    "Expected array"@
}

/// Parsing each string as a UUID, stopping at the first that is none.
pub open spec fn parse_all_uuidish(items: Seq<Seq<char>>) -> Result<Seq<u128>, Seq<char>>
    decreases items.len(),
{
    if items.len() == 0 {
        Ok(seq![])
    } else {
        match parse_all_uuidish(items.drop_last()) {
            Err(e) => Err(e),
            Ok(vs) => match uuidish_value(items.last()) {
                Some(v) => Ok(vs.push(v)),
                None => Err(invalid_uuid_message(items.last())),
            },
        }
    }
}

/// Normalizing each string as a UUID, stopping at the first that is none.
pub open spec fn normalize_all(items: Seq<Seq<char>>) -> Result<Seq<Seq<char>>, Seq<char>>
    decreases items.len(),
{
    if items.len() == 0 {
        Ok(seq![])
    } else {
        match normalize_all(items.drop_last()) {
            Err(e) => Err(e),
            Ok(vs) => match normalized_uuid_text(items.last()) {
                Some(v) => Ok(vs.push(v)),
                None => Err(invalid_uuid_message(items.last())),
            },
        }
    }
}

/// The strings of a vector, as views.
pub open spec fn strings_view(v: Seq<String>) -> Seq<Seq<char>> {
    v.map_values(|s: String| s@)
}

/// The UUID list that a string-list key yields for a scan.
pub open spec fn scan_services_of(f: StringListField) -> Result<Seq<u128>, Seq<char>> {
    match f {
        StringListField::Absent => Ok(seq![]),
        StringListField::NotAnArray => Err(expected_array_message()),
        StringListField::Items(v) => parse_all_uuidish(strings_view(v@)),
    }
}

/// The normalized UUID list that a string-list key yields for `requestDevice`.
pub open spec fn normalized_services_of(f: StringListField) -> Result<Seq<Seq<char>>, Seq<char>> {
    match f {
        StringListField::Absent => Ok(seq![]),
        StringListField::NotAnArray => Err(expected_array_message()),
        StringListField::Items(v) => normalize_all(strings_view(v@)),
    }
}

/// Parses every string as a UUID; the first one that is none is the error.
pub fn parse_uuid_list(items: &Vec<String>) -> (res: Result<Vec<u128>, String>)
    ensures
        match res {
            Ok(v) => parse_all_uuidish(strings_view(items@)) == Ok::<Seq<u128>, Seq<char>>(v@),
            Err(e) => parse_all_uuidish(strings_view(items@)) == Err::<Seq<u128>, Seq<char>>(e@),
        },
        res is Ok <==> forall|i: int| 0 <= i < items@.len() ==> uuidish_value(#[trigger] items@[i]@) is Some,
        res matches Ok(v) ==> v@.len() == items@.len() && forall|i: int|
            0 <= i < items@.len() ==> uuidish_value(#[trigger] items@[i]@) == Some(v@[i]),
{
    proof {
        law_parse_all_one_value_per_item(strings_view(items@));
        assert forall|i: int| 0 <= i < items@.len() implies strings_view(items@)[i] == (
            #[trigger] items@[i])@ by {}
    }
    let mut out: Vec<u128> = Vec::new();
    let n = items.len();
    for i in 0..n
        invariant
            n == items@.len(),
            parse_all_uuidish(strings_view(items@).take(i as int)) == Ok::<Seq<u128>, Seq<char>>(
                out@,
            ),
    {
        proof {
            assert(strings_view(items@).take(i + 1).drop_last() =~= strings_view(items@).take(i as int));
        }
        match parse_uuidish(items[i].as_str()) {
            Ok(v) => out.push(v),
            Err(e) => {
                proof {
                    lemma_parse_all_error_persists(strings_view(items@), (i + 1) as int);
                }
                return Err(e);
            },
        }
    }
    proof {
        assert(strings_view(items@).take(n as int) =~= strings_view(items@));
    }
    Ok(out)
}

/// Once a prefix fails, every longer prefix fails with the same error.
proof fn lemma_parse_all_error_persists(items: Seq<Seq<char>>, i: int)
    requires
        0 <= i <= items.len(),
        parse_all_uuidish(items.take(i)) is Err,
    ensures
        parse_all_uuidish(items) == parse_all_uuidish(items.take(i)),
    decreases items.len() - i,
{
    if i < items.len() {
        assert(items.take(i + 1).drop_last() =~= items.take(i));
        lemma_parse_all_error_persists(items, i + 1);
    } else {
        assert(items.take(i) =~= items);
    }
}

/// Normalizes every string as a UUID; the first one that is none is the error.
pub fn normalize_uuid_list(items: &Vec<String>) -> (res: Result<Vec<String>, String>)
    ensures
        match res {
            Ok(v) => normalize_all(strings_view(items@)) == Ok::<Seq<Seq<char>>, Seq<char>>(
                strings_view(v@),
            ),
            Err(e) => normalize_all(strings_view(items@)) == Err::<Seq<Seq<char>>, Seq<char>>(e@),
        },
        res is Ok <==> forall|i: int|
            0 <= i < items@.len() ==> normalized_uuid_text(#[trigger] items@[i]@) is Some,
        res matches Ok(v) ==> v@.len() == items@.len() && forall|i: int|
            0 <= i < items@.len() ==> normalized_uuid_text(#[trigger] items@[i]@) == Some(v@[i]@),
{
    proof {
        law_normalize_all_one_text_per_item(strings_view(items@));
        assert forall|i: int| 0 <= i < items@.len() implies strings_view(items@)[i] == (
            #[trigger] items@[i])@ by {}
    }
    let mut out: Vec<String> = Vec::new();
    let n = items.len();
    proof {
        assert(strings_view(out@) =~= seq![]);
        assert(strings_view(items@).take(0) =~= seq![]);
    }
    for i in 0..n
        invariant
            n == items@.len(),
            normalize_all(strings_view(items@).take(i as int)) == Ok::<Seq<Seq<char>>, Seq<char>>(
                strings_view(out@),
            ),
    {
        proof {
            assert(strings_view(items@).take(i + 1).drop_last() =~= strings_view(items@).take(i as int));
        }
        match normalized_uuid(items[i].as_str()) {
            Ok(v) => {
                let ghost before = strings_view(out@);
                out.push(v);
                proof {
                    assert(strings_view(out@) =~= before.push(v@));
                }
            },
            Err(e) => {
                proof {
                    lemma_normalize_all_error_persists(strings_view(items@), (i + 1) as int);
                }
                return Err(e);
            },
        }
    }
    proof {
        assert(strings_view(items@).take(n as int) =~= strings_view(items@));
    }
    Ok(out)
}

/// Once a prefix fails, every longer prefix fails with the same error.
proof fn lemma_normalize_all_error_persists(items: Seq<Seq<char>>, i: int)
    requires
        0 <= i <= items.len(),
        normalize_all(items.take(i)) is Err,
    ensures
        normalize_all(items) == normalize_all(items.take(i)),
    decreases items.len() - i,
{
    if i < items.len() {
        assert(items.take(i + 1).drop_last() =~= items.take(i));
        lemma_normalize_all_error_persists(items, i + 1);
    } else {
        assert(items.take(i) =~= items);
    }
}

/// Reads `scan` options: without options, 3000 ms and no filter; a
/// non-struct is refused; in a struct `timeout`, `namePrefix` and `services`
/// are each optional, and every service must be a UUID.
pub fn parse_scan_options(arg: OptionsArgument<ScanOptionsFields>) -> (res: Result<ScanOptions, String>)
    ensures
        arg is Null ==> (res matches Ok(o) && o.timeout_ms == 3000 && o.services@.len() == 0
            && o.name_prefix is None),
        arg is NotAStruct ==> (res matches Err(e) && e@ == "scan options must be a struct"@),
        arg matches OptionsArgument::Struct(f) ==> match scan_services_of(f.services) {
            Ok(services) => res matches Ok(o) && o.services@ == services && o.timeout_ms == match f.timeout_ms {
                Some(t) => t,
                None => 3000,
            } && o.name_prefix == f.name_prefix,
            Err(e) => res matches Err(m) && m@ == e,
        },
{
    match arg {
        OptionsArgument::Null => Ok(
            ScanOptions { timeout_ms: DEFAULT_SCAN_TIMEOUT_MS, services: Vec::new(), name_prefix: None },
        ),
        OptionsArgument::NotAStruct => Err(String::from_str("scan options must be a struct")),
        OptionsArgument::Struct(fields) => {
            let ScanOptionsFields { timeout_ms, name_prefix, services } = fields;
            let timeout_ms = match timeout_ms {
                Some(t) => t,
                None => DEFAULT_SCAN_TIMEOUT_MS,
            };
            let services = match services {
                StringListField::Absent => Vec::new(),
                StringListField::NotAnArray => {
                    return Err(String::from_str("Expected array"));
                },
                StringListField::Items(items) => match parse_uuid_list(&items) {
                    Ok(v) => v,
                    Err(e) => {
                        return Err(e);
                    },
                },
            };
            Ok(ScanOptions { timeout_ms, services, name_prefix })
        },
    }
}

/// Reads a string-list key of `requestDevice` options as normalized UUIDs.
fn normalized_list_field(field: StringListField) -> (res: Result<Vec<String>, String>)
    ensures
        match normalized_services_of(field) {
            Ok(v) => res matches Ok(r) && strings_view(r@) == v,
            Err(e) => res matches Err(m) && m@ == e,
        },
{
    match field {
        StringListField::Absent => {
            let v: Vec<String> = Vec::new();
            proof {
                assert(strings_view(v@) =~= seq![]);
            }
            Ok(v)
        },
        StringListField::NotAnArray => Err(String::from_str("Expected array")),
        StringListField::Items(items) => normalize_uuid_list(&items),
    }
}

/// Reads `requestDevice` options: without options, no filter; a non-struct
/// is refused; in a struct `services` and `optionalServices` are normalized
/// (services are read first, so their error wins) and `namePrefix` is kept.
pub fn parse_request_device_options(arg: OptionsArgument<RequestDeviceFields>) -> (res: Result<
    RequestDeviceOptionsInput,
    String,
>)
    ensures
        arg is Null ==> (res matches Ok(o) && o.services@.len() == 0 && o.optional_services@.len()
            == 0 && o.name_prefix is None),
        arg is NotAStruct ==> (res matches Err(e) && e@ == "requestDevice options must be a struct"@),
        arg matches OptionsArgument::Struct(f) ==> match normalized_services_of(f.services) {
            Err(e) => res matches Err(m) && m@ == e,
            Ok(s) => match normalized_services_of(f.optional_services) {
                Err(e) => res matches Err(m) && m@ == e,
                Ok(o) => res matches Ok(r) && strings_view(r.services@) == s && strings_view(
                    r.optional_services@,
                ) == o && r.name_prefix == f.name_prefix,
            },
        },
{
    match arg {
        OptionsArgument::Null => Ok(RequestDeviceOptionsInput::default()),
        OptionsArgument::NotAStruct => Err(String::from_str("requestDevice options must be a struct")),
        OptionsArgument::Struct(fields) => {
            let RequestDeviceFields { services, optional_services, name_prefix } = fields;
            let services = match normalized_list_field(services) {
                Ok(v) => v,
                Err(e) => {
                    return Err(e);
                },
            };
            let optional_services = match normalized_list_field(optional_services) {
                Ok(v) => v,
                Err(e) => {
                    return Err(e);
                },
            };
            Ok(RequestDeviceOptionsInput { services, optional_services, name_prefix })
        },
    }
}

/// The write mode that a `mode` option selects.
pub open spec fn write_mode_of(mode: Option<&str>) -> WriteMode {
    if mode matches Some(m) && str_to_lowercase(m@) == "withresponse"@ {
        WriteMode::WithResponse
    } else {
        WriteMode::WithoutResponse
    }
}

/// The write mode from the `mode` key of `write` options (absent when there
/// are no options, they are not a struct, or the key is missing): "with
/// response" when it reads `withResponse` in any case, else "without response".
pub fn parse_write_mode(mode: Option<&str>) -> (res: WriteMode)
    ensures
        res == write_mode_of(mode),
{
    match mode {
        Some(m) => {
            let lowered = to_lowercase(m);
            if text_eq(lowered.as_str(), "withresponse") {
                WriteMode::WithResponse
            } else {
                WriteMode::WithoutResponse
            }
        },
        None => WriteMode::WithoutResponse,
    }
}

/// Parsing a list gives one UUID per item, in order, exactly when every
/// item is a UUID; otherwise the error is that of the first item that is not.
pub proof fn law_parse_all_one_value_per_item(items: Seq<Seq<char>>)
    ensures
        parse_all_uuidish(items) is Ok <==> forall|i: int|
            0 <= i < items.len() ==> uuidish_value(#[trigger] items[i]) is Some,
        parse_all_uuidish(items) matches Ok(vs) ==> vs.len() == items.len() && forall|i: int|
            0 <= i < items.len() ==> uuidish_value(#[trigger] items[i]) == Some(vs[i]),
        parse_all_uuidish(items) matches Err(e) ==> exists|i: int|
            0 <= i < items.len() && uuidish_value(#[trigger] items[i]) is None && e
                == invalid_uuid_message(items[i]) && forall|j: int|
                0 <= j < i ==> uuidish_value(#[trigger] items[j]) is Some,
    decreases items.len(),
{
    if items.len() > 0 {
        let init = items.drop_last();
        let n = items.len() - 1;
        law_parse_all_one_value_per_item(init);
        assert forall|i: int| 0 <= i < n implies items[i] == #[trigger] init[i] by {}
        match parse_all_uuidish(init) {
            Ok(vs) => {
                if let Some(v) = uuidish_value(items.last()) {
                    assert(uuidish_value(items[n]) == Some(v));
                    assert forall|i: int| 0 <= i < items.len() implies uuidish_value(#[trigger] items[i])
                        == Some(vs.push(v)[i]) by {
                        if i < n {
                            assert(uuidish_value(init[i]) == Some(vs[i]));
                        }
                    }
                }
                if uuidish_value(items.last()) is None {
                    assert(uuidish_value(items[n]) is None);
                    assert forall|j: int| 0 <= j < n implies uuidish_value(#[trigger] items[j]) is Some by {
                        assert(uuidish_value(init[j]) is Some);
                    }
                }
            },
            Err(e) => {
                let i = choose|i: int|
                    0 <= i < init.len() && uuidish_value(#[trigger] init[i]) is None && e
                        == invalid_uuid_message(init[i]) && forall|j: int|
                        0 <= j < i ==> uuidish_value(#[trigger] init[j]) is Some;
                assert(uuidish_value(items[i]) is None);
                assert forall|j: int| 0 <= j < i implies uuidish_value(#[trigger] items[j]) is Some by {
                    assert(uuidish_value(init[j]) is Some);
                }
            },
        }
    }
}

/// Normalizing a list gives one text per item, in order, exactly when every
/// item is a UUID; otherwise the error is that of the first item that is not.
pub proof fn law_normalize_all_one_text_per_item(items: Seq<Seq<char>>)
    ensures
        normalize_all(items) is Ok <==> forall|i: int|
            0 <= i < items.len() ==> normalized_uuid_text(#[trigger] items[i]) is Some,
        normalize_all(items) matches Ok(vs) ==> vs.len() == items.len() && forall|i: int|
            0 <= i < items.len() ==> normalized_uuid_text(#[trigger] items[i]) == Some(vs[i]),
        normalize_all(items) matches Err(e) ==> exists|i: int|
            0 <= i < items.len() && normalized_uuid_text(#[trigger] items[i]) is None && e
                == invalid_uuid_message(items[i]) && forall|j: int|
                0 <= j < i ==> normalized_uuid_text(#[trigger] items[j]) is Some,
    decreases items.len(),
{
    if items.len() > 0 {
        let init = items.drop_last();
        let n = items.len() - 1;
        law_normalize_all_one_text_per_item(init);
        assert forall|i: int| 0 <= i < n implies items[i] == #[trigger] init[i] by {}
        match normalize_all(init) {
            Ok(vs) => {
                if let Some(v) = normalized_uuid_text(items.last()) {
                    assert(normalized_uuid_text(items[n]) == Some(v));
                    assert forall|i: int| 0 <= i < items.len() implies normalized_uuid_text(#[trigger] items[i])
                        == Some(vs.push(v)[i]) by {
                        if i < n {
                            assert(normalized_uuid_text(init[i]) == Some(vs[i]));
                        }
                    }
                }
                if normalized_uuid_text(items.last()) is None {
                    assert(normalized_uuid_text(items[n]) is None);
                    assert forall|j: int| 0 <= j < n implies normalized_uuid_text(#[trigger] items[j]) is Some by {
                        assert(normalized_uuid_text(init[j]) is Some);
                    }
                }
            },
            Err(e) => {
                let i = choose|i: int|
                    0 <= i < init.len() && normalized_uuid_text(#[trigger] init[i]) is None && e
                        == invalid_uuid_message(init[i]) && forall|j: int|
                        0 <= j < i ==> normalized_uuid_text(#[trigger] init[j]) is Some;
                assert(normalized_uuid_text(items[i]) is None);
                assert forall|j: int| 0 <= j < i implies normalized_uuid_text(#[trigger] items[j]) is Some by {
                    assert(normalized_uuid_text(init[j]) is Some);
                }
            },
        }
    }
}

} // verus!
