//! What the module's BoxLang objects answer: property lookup, the `BTError`
//! fields and the stable error codes.

use vstd::prelude::*;
use vstd::string::StringExecFns;
use crate::text::{eq_ignore_ascii_case, eq_ignore_ascii_case_spec, str_to_lowercase, text_eq, to_lowercase};

verus! {

/// The value of the first mapping whose key matches `name` ignoring ASCII
/// case; `None` (BoxLang null) when no key matches.
pub open spec fn object_property<O>(name: Seq<char>, keys: Seq<Seq<char>>, values: Seq<O>) -> Option<O>
    decreases keys.len(),
{
    if keys.len() == 0 || values.len() == 0 {
        None
    } else if eq_ignore_ascii_case_spec(keys[0], name) {
        Some(values[0])
    } else {
        object_property(name, keys.drop_first(), values.drop_first())
    }
}

/// The keys of a property table.
pub open spec fn table_keys<O>(mappings: Seq<(&str, O)>) -> Seq<Seq<char>> {
    mappings.map_values(|m: (&str, O)| m.0@)
}

/// The values of a property table.
pub open spec fn table_values<O>(mappings: Seq<(&str, O)>) -> Seq<O> {
    mappings.map_values(|m: (&str, O)| m.1)
}

/// Looks a property up in a table of `(name, value)` pairs: the first name
/// equal to `name` ignoring ASCII case wins; `None` stands for null.
pub fn get_object_property<O: Copy>(name: &str, mappings: &[(&str, O)]) -> (res: Option<O>)
    ensures
        res == object_property(name@, table_keys(mappings@), table_values(mappings@)),
{
    let n = mappings.len();
    let mut i: usize = 0;
    proof {
        assert(table_keys(mappings@).skip(0) =~= table_keys(mappings@));
        assert(table_values(mappings@).skip(0) =~= table_values(mappings@));
    }
    while i < n
        invariant
            n == mappings@.len(),
            i <= n,
            object_property(name@, table_keys(mappings@), table_values(mappings@)) == object_property(
                name@,
                table_keys(mappings@).skip(i as int),
                table_values(mappings@).skip(i as int),
            ),
        decreases n - i,
    {
        let ghost ks = table_keys(mappings@).skip(i as int);
        let ghost vs = table_values(mappings@).skip(i as int);
        proof {
            assert(ks.drop_first() =~= table_keys(mappings@).skip(i + 1));
            assert(vs.drop_first() =~= table_values(mappings@).skip(i + 1));
            assert(ks[0] == mappings@[i as int].0@);
            assert(vs[0] == mappings@[i as int].1);
        }
        if eq_ignore_ascii_case(mappings[i].0, name) {
            proof {
                assert(eq_ignore_ascii_case_spec(ks[0], name@));
            }
            return Some(mappings[i].1);
        }
        i = i + 1;
    }
    None
}

/// A `BTError`: stable `code` and `message` strings and diagnostic
/// `details` (null when absent).
#[derive(Debug)]
pub struct BTError<O> {
    pub code: O,
    pub message: O,
    pub details: Option<O>,
}

impl<O: Copy> BTError<O> {
    /// `code`, `message` or `details`, ignoring ASCII case; null otherwise.
    pub fn get_property(&self, name: &str) -> (res: Option<O>)
        ensures
            res == if eq_ignore_ascii_case_spec("code"@, name@) {
                Some(self.code)
            } else if eq_ignore_ascii_case_spec("message"@, name@) {
                Some(self.message)
            } else if eq_ignore_ascii_case_spec("details"@, name@) {
                self.details
            } else {
                None
            },
    {
        if eq_ignore_ascii_case("code", name) {
            Some(self.code)
        } else if eq_ignore_ascii_case("message", name) {
            Some(self.message)
        } else if eq_ignore_ascii_case("details", name) {
            self.details
        } else {
            None
        }
    }
}

/// The arguments of the `BTError` constructor: code, message and optional
/// details. Fewer than two arguments are refused; extra ones are ignored.
pub fn bt_error_arguments<O: Copy>(args: &[O]) -> (res: Result<(O, O, Option<O>), String>)
    ensures
        args@.len() < 2 ==> (res matches Err(e) && e@ == "BTError requires code and message"@),
        args@.len() >= 2 ==> res == Ok::<(O, O, Option<O>), String>(
            (args@[0], args@[1], if args@.len() > 2 {
                Some(args@[2])
            } else {
                None
            }),
        ),
{
    if args.len() < 2 {
        return Err(String::from_str("BTError requires code and message"));
    }
    let details = if args.len() > 2 {
        Some(args[2])
    } else {
        None
    };
    Ok((args[0], args[1], details))
}

/// A property of a `Service` object.
pub enum PropertyValue<O> {
    Value(O),
    Bool(bool),
    Null,
}

/// `uuid` or `primary` (name lowercased first); null otherwise.
pub fn service_property<O: Copy>(name: &str, uuid: O, primary: bool) -> (res: PropertyValue<O>)
    ensures
        str_to_lowercase(name@) == "uuid"@ ==> res == PropertyValue::Value(uuid),
        str_to_lowercase(name@) == "primary"@ ==> res == PropertyValue::<O>::Bool(primary),
        str_to_lowercase(name@) != "uuid"@ && str_to_lowercase(name@) != "primary"@ ==> res
            == PropertyValue::<O>::Null,
{
    let lowered = to_lowercase(name);
    proof {
        reveal_strlit("uuid");
        reveal_strlit("primary");
        assert("uuid"@.len() != "primary"@.len());
    }
    if text_eq(lowered.as_str(), "uuid") {
        PropertyValue::Value(uuid)
    } else if text_eq(lowered.as_str(), "primary") {
        PropertyValue::Bool(primary)
    } else {
        PropertyValue::Null
    }
}

/// The stable `code` of a `BTError`.
#[derive(Clone, Copy, Debug, PartialEq, Eq, Structural)]
pub enum ErrorCode {
    /// A backend operation failed.
    BackendError,
    /// The operation does not exist on this target.
    NotSupported,
    /// Connecting to a device failed.
    ConnectionFailed,
    /// The object's connection state does not allow the operation.
    InvalidState,
    /// A characteristic write failed.
    WriteFailed,
}

/// The text of each code.
pub open spec fn error_code_text(code: ErrorCode) -> Seq<char> {
    match code {
        ErrorCode::BackendError => "backendError"@,
        ErrorCode::NotSupported => "notSupported"@,
        ErrorCode::ConnectionFailed => "connectionFailed"@,
        ErrorCode::InvalidState => "invalidState"@,
        ErrorCode::WriteFailed => "writeFailed"@,
    }
}

impl ErrorCode {
    /// The code's text, as BoxLang code sees it in `error.code`.
    pub fn as_text(self) -> (res: String)
        ensures
            res@ == error_code_text(self),
    {
        match self {
            ErrorCode::BackendError => String::from_str("backendError"),
            ErrorCode::NotSupported => String::from_str("notSupported"),
            ErrorCode::ConnectionFailed => String::from_str("connectionFailed"),
            ErrorCode::InvalidState => String::from_str("invalidState"),
            ErrorCode::WriteFailed => String::from_str("writeFailed"),
        }
    }
}

} // verus!
