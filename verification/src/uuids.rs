//! UUID normalization: short Bluetooth SIG UUIDs (`"2AF1"`, `"0000180A"`) are
//! expanded over the Bluetooth base UUID, and every accepted form is rendered
//! as the lowercase hyphenated text `xxxxxxxx-xxxx-xxxx-xxxx-xxxxxxxxxxxx`.
//! Parsing and rendering are done by the `uuid` crate; a UUID is carried here
//! as its 128-bit big-endian value.

use vstd::prelude::*;
use vstd::arithmetic::power::pow;
use vstd::utf8::{encode_utf8, is_ascii_chars};
use vstd::string::StringExecFns;
use crate::text::{
    ascii_lower, ascii_lowercase, ascii_uppercase, eq_ignore_ascii_case_spec, is_ascii_graphic, is_ascii_hex_digit,
    lemma_lower_of_upper, lemma_trim_ascii, lemma_trim_ascii_uppercase, str_to_lowercase, str_trim,
    to_lowercase, trim,
};

verus! {

/// Lowercase hexadecimal digit of a nibble `0..16`.
pub open spec fn hex_digit_lower(n: int) -> char {
    if n < 10 {
        (('0' as int) + n) as char
    } else {
        (('a' as int) + n - 10) as char
    }
}

/// Nibble `i` of `v`, counting from the most significant (`i` in `0..32`).
pub open spec fn nibble(v: u128, i: int) -> int {
    ((v as int) / pow(16, (31 - i) as nat)) % 16
}

/// The 32 lowercase hex digits of `v`, most significant first.
pub open spec fn simple_hex_lower(v: u128) -> Seq<char> {
    Seq::new(32, |i: int| hex_digit_lower(nibble(v, i)))
}

/// 32 hex digits cut into groups of 8, 4, 4, 4 and 12 by hyphens.
pub open spec fn hyphenate(h: Seq<char>) -> Seq<char> {
    h.subrange(0, 8) + seq!['-'] + h.subrange(8, 12) + seq!['-'] + h.subrange(12, 16)
        + seq!['-'] + h.subrange(16, 20) + seq!['-'] + h.subrange(20, 32)
}

/// The lowercase hyphenated rendering of `v`.
pub open spec fn hyphenated_lower(v: u128) -> Seq<char> {
    hyphenate(simple_hex_lower(v))
}

/// Positions of the four hyphens in hyphenated UUID text.
pub open spec fn is_hyphen_position(i: int) -> bool {
    i == 8 || i == 13 || i == 18 || i == 23
}

/// Hyphenated UUID text: 36 characters, hyphens at 8, 13, 18 and 23, and a
/// hex digit of either case everywhere else.
pub open spec fn is_hyphenated_uuid_text(s: Seq<char>) -> bool {
    &&& s.len() == 36
    &&& forall|i: int|
        0 <= i < 36 ==> if is_hyphen_position(i) {
            s[i] == '-'
        } else {
            is_ascii_hex_digit(#[trigger] s[i])
        }
}

/// What `uuid::Uuid::parse_str` returns for a string: the UUID's 128-bit
/// big-endian value, or `None` where it reports an error.
pub uninterp spec fn uuid_parse_str(s: Seq<char>) -> Option<u128>;

/// Braced UUID text: `{`, hyphenated UUID text, `}`.
pub open spec fn is_braced_uuid_text(s: Seq<char>) -> bool {
    s.len() == 38 && s[0] == '{' && s[37] == '}' && is_hyphenated_uuid_text(s.subrange(1, 37))
}

/// URN UUID text: `urn:uuid:` in any ASCII case, then hyphenated UUID text.
pub open spec fn is_urn_uuid_text(s: Seq<char>) -> bool {
    s.len() == 45 && eq_ignore_ascii_case_spec(s.take(9), "urn:uuid:"@) && is_hyphenated_uuid_text(
        s.skip(9),
    )
}

/// The four shapes that the `uuid` crate accepts: simple (32 hex digits),
/// hyphenated, braced and URN.
pub open spec fn is_uuid_text(s: Seq<char>) -> bool {
    is_hex_text(s, 32) || is_hyphenated_uuid_text(s) || is_braced_uuid_text(s) || is_urn_uuid_text(s)
}

/// Calls `uuid::Uuid::parse_str` and takes `as_u128` of the result. Trusted:
/// the result is the named parse of the text; it is a value exactly when the
/// text has one of the four accepted shapes (the parser works on bytes, and
/// a byte outside ASCII is never a hex digit, a hyphen, a brace or part of
/// the URN prefix); and that value is the one whose lowercase hex digits are
/// the text's digits, lowercased.
#[verifier::external_body]
fn parse_uuid_str(s: &str) -> (res: Option<u128>)
    ensures
        res == uuid_parse_str(s@),
        res is Some <==> is_uuid_text(s@),
        is_hyphenated_uuid_text(s@) ==> res is Some && hyphenated_lower(res->0) == ascii_lowercase(s@),
        is_hex_text(s@, 32) ==> res is Some && simple_hex_lower(res->0) == ascii_lowercase(s@),
        is_braced_uuid_text(s@) ==> res is Some && hyphenated_lower(res->0) == ascii_lowercase(
            s@.subrange(1, 37),
        ),
        is_urn_uuid_text(s@) ==> res is Some && hyphenated_lower(res->0) == ascii_lowercase(s@.skip(9)),
{
    match uuid::Uuid::parse_str(s) {
        Ok(u) => Some(u.as_u128()),
        Err(_) => None,
    }
}

/// Calls `uuid::Uuid::from_u128(v).to_string()`. Trusted: `Display` for a
/// `Uuid` writes the lowercase hyphenated form of its big-endian value.
#[verifier::external_body]
fn format_uuid(v: u128) -> (res: String)
    ensures
        res@ == hyphenated_lower(v),
{
    uuid::Uuid::from_u128(v).to_string()
}

/// The tail of the Bluetooth base UUID `0000xxxx-0000-1000-8000-00805f9b34fb`.
pub open spec fn base_uuid_suffix() -> Seq<char> {
    "-0000-1000-8000-00805f9b34fb"@
}

/// The text that is handed to the UUID parser: trimmed and lowercased input,
/// widened over the Bluetooth base UUID when it is 4 or 8 bytes long.
pub open spec fn expand_short_uuid(raw: Seq<char>) -> Seq<char> {
    let n = encode_utf8(raw).len();
    if n == 4 {
        "0000"@ + raw + base_uuid_suffix()
    } else if n == 8 {
        raw + base_uuid_suffix()
    } else {
        raw
    }
}

/// The trimmed, lowercased form of the input.
pub open spec fn uuidish_raw(input: Seq<char>) -> Seq<char> {
    str_to_lowercase(str_trim(input))
}

/// The UUID that `parse_uuidish` finds in the input, if any.
pub open spec fn uuidish_value(input: Seq<char>) -> Option<u128> {
    uuid_parse_str(expand_short_uuid(uuidish_raw(input)))
}

/// The trimmed, ASCII-lowercased form of the input.
pub open spec fn ascii_raw(input: Seq<char>) -> Seq<char> {
    ascii_lowercase(str_trim(input))
}

/// The normalized text of input whose trimmed text is ASCII, if it is a
/// UUID: the same as `normalized_uuid_text`, with ASCII lowercasing (to
/// which Unicode lowercasing comes down on ASCII text).
pub open spec fn ascii_case_normalized(input: Seq<char>) -> Option<Seq<char>> {
    match uuid_parse_str(expand_short_uuid(ascii_raw(input))) {
        Some(v) => Some(hyphenated_lower(v)),
        None => None,
    }
}

/// The error text for input that is no UUID.
pub open spec fn invalid_uuid_message(input: Seq<char>) -> Seq<char> {
    "Invalid UUID: "@ + input
}

/// The normalized text of the input, if it is a UUID.
pub open spec fn normalized_uuid_text(input: Seq<char>) -> Option<Seq<char>> {
    match uuidish_value(input) {
        Some(v) => Some(hyphenated_lower(v)),
        None => None,
    }
}

/// `n` ASCII hex digits of either case.
pub open spec fn is_hex_text(s: Seq<char>, n: nat) -> bool {
    s.len() == n && forall|i: int| 0 <= i < n ==> is_ascii_hex_digit(#[trigger] s[i])
}

/// The full text that a short UUID of 4 or 8 hex digits stands for.
pub open spec fn short_uuid_text(s: Seq<char>) -> Seq<char> {
    if s.len() == 4 {
        "0000"@ + ascii_lowercase(s) + base_uuid_suffix()
    } else {
        ascii_lowercase(s) + base_uuid_suffix()
    }
}

/// Parses a UUID the way the module accepts them from BoxLang: surrounding
/// whitespace is ignored, case is ignored, and a 4- or 8-byte short form is
/// widened over the Bluetooth base UUID before the `uuid` crate parses it.
pub fn parse_uuidish(input: &str) -> (res: Result<u128, String>)
    ensures
        match res {
            Ok(v) => uuidish_value(input@) == Some(v),
            Err(e) => uuidish_value(input@) is None && e@ == invalid_uuid_message(input@),
        },
        is_hyphenated_uuid_text(input@) ==> res is Ok && hyphenated_lower(res->Ok_0)
            == ascii_lowercase(input@),
        is_hex_text(input@, 4) || is_hex_text(input@, 8) ==> res is Ok && hyphenated_lower(
            res->Ok_0,
        ) == short_uuid_text(input@),
        res is Ok <==> is_uuid_text(expand_short_uuid(uuidish_raw(input@))),
        is_ascii_chars(str_trim(input@)) ==> uuidish_raw(input@) == ascii_raw(input@),
        is_hex_text(input@, 32) ==> res is Ok && simple_hex_lower(res->Ok_0) == ascii_lowercase(
            input@,
        ),
{
    let trimmed = trim(input);
    proof {
        if is_ascii_chars(input@) {
            lemma_trim_ascii(input@);
        }
    }
    proof {
        if is_hyphenated_uuid_text(input@) || is_hex_text(input@, 4) || is_hex_text(input@, 8)
            || is_hex_text(input@, 32) {
            lemma_graphic_of_uuid_shapes(input@);
        }
    }
    let raw = to_lowercase(trimmed);
    proof {
        if is_hyphenated_uuid_text(input@) || is_hex_text(input@, 4) || is_hex_text(input@, 8)
            || is_hex_text(input@, 32) {
            assert(is_ascii_chars(input@));
            assert(raw@ == ascii_lowercase(input@));
            lemma_ascii_lowercase_ascii(input@);
            vstd::utf8::is_ascii_chars_encode_utf8(raw@);
        }
    }
    let n = raw.as_str().as_bytes().len();
    let expanded = if n == 4 {
        String::from_str("0000").concat(raw.as_str()).concat("-0000-1000-8000-00805f9b34fb")
    } else if n == 8 {
        raw.concat("-0000-1000-8000-00805f9b34fb")
    } else {
        raw
    };
    assert(expanded@ == expand_short_uuid(uuidish_raw(input@)));
    proof {
        if is_hyphenated_uuid_text(input@) {
            assert(expanded@ == ascii_lowercase(input@));
            lemma_hyphenated_text_lowercase(input@);
            lemma_ascii_lowercase_idempotent(input@);
        }
        if is_hex_text(input@, 4) || is_hex_text(input@, 8) {
            lemma_short_uuid_text(input@);
            assert(expanded@ == short_uuid_text(input@));
        }
        if is_hex_text(input@, 32) {
            assert(expanded@ == ascii_lowercase(input@));
            lemma_ascii_lowercase_idempotent(input@);
            assert forall|i: int| 0 <= i < 32 implies is_ascii_hex_digit(
                #[trigger] expanded@[i],
            ) by {
                assert(is_ascii_hex_digit(input@[i]));
            }
        }
    }
    match parse_uuid_str(expanded.as_str()) {
        Some(v) => Ok(v),
        None => Err(String::from_str("Invalid UUID: ").concat(input)),
    }
}

/// Normalizes a UUID to lowercase hyphenated text (see `parse_uuidish` for
/// what is accepted). The result is itself hyphenated lowercase text, which
/// this function maps to itself: normalizing twice is normalizing once.
pub fn normalized_uuid(input: &str) -> (res: Result<String, String>)
    ensures
        match res {
            Ok(s) => normalized_uuid_text(input@) == Some(s@),
            Err(e) => normalized_uuid_text(input@) is None && e@ == invalid_uuid_message(input@),
        },
        res matches Ok(s) ==> is_hyphenated_uuid_text(s@) && ascii_lowercase(s@) == s@,
        is_hyphenated_uuid_text(input@) ==> (res matches Ok(s) && s@ == ascii_lowercase(input@)),
        is_hex_text(input@, 4) || is_hex_text(input@, 8) ==> (res matches Ok(s) && s@
            == short_uuid_text(input@)),
        res is Ok <==> is_uuid_text(expand_short_uuid(uuidish_raw(input@))),
        is_ascii_chars(str_trim(input@)) ==> normalized_uuid_text(input@) == ascii_case_normalized(
            input@,
        ) && (res is Ok <==> is_uuid_text(expand_short_uuid(ascii_raw(input@)))),
        is_hex_text(input@, 32) ==> (res matches Ok(s) && s@ == hyphenate(ascii_lowercase(input@))),
{
    match parse_uuidish(input) {
        Ok(v) => {
            let text = format_uuid(v);
            proof {
                lemma_hyphenated_lower_ascii(v);
            }
            let lowered = to_lowercase(text.as_str());
            Ok(lowered)
        },
        Err(e) => Err(e),
    }
}

/// The text under which the module reports a UUID that a backend found:
/// its lowercase hyphenated form.
pub fn uuid_to_text(v: u128) -> (res: String)
    ensures
        res@ == hyphenated_lower(v),
        is_hyphenated_uuid_text(res@),
{
    let text = format_uuid(v);
    proof {
        lemma_hyphenated_lower_ascii(v);
    }
    to_lowercase(text.as_str())
}

/// Normalization is idempotent: text that `normalized_uuid` returns meets
/// the hypothesis under which `normalized_uuid` returns its input unchanged.
pub proof fn law_normalized_uuid_idempotent(v: u128)
    ensures
        is_hyphenated_uuid_text(hyphenated_lower(v)),
        ascii_lowercase(hyphenated_lower(v)) == hyphenated_lower(v),
{
    lemma_hyphenated_lower_ascii(v);
}

/// Case does not matter: uppercasing the input gives the same normalized
/// text. For input whose text inside the surrounding whitespace is ASCII
/// (the surrounding whitespace may be any Unicode whitespace), the input and
/// its uppercase are both normalized by `ascii_case_normalized` (see
/// `normalized_uuid`), which gives them the same result.
/// `ascii_uppercase` is `str::to_uppercase` on such input, since whitespace
/// characters have no case.
pub proof fn law_normalized_uuid_ignores_case(input: Seq<char>)
    ensures
        is_ascii_chars(str_trim(input)) ==> is_ascii_chars(str_trim(ascii_uppercase(input))),
        ascii_case_normalized(ascii_uppercase(input)) == ascii_case_normalized(input),
{
    lemma_trim_ascii_uppercase(input);
    lemma_lower_of_upper(input);
    lemma_lower_of_upper(str_trim(input));
}

/// The three accepted shapes checked here are printable ASCII.
proof fn lemma_graphic_of_uuid_shapes(s: Seq<char>)
    requires
        is_hyphenated_uuid_text(s) || is_hex_text(s, 4) || is_hex_text(s, 8) || is_hex_text(s, 32),
    ensures
        forall|i: int| 0 <= i < s.len() ==> is_ascii_graphic(#[trigger] s[i]),
        is_ascii_chars(s),
{
    assert forall|i: int| 0 <= i < s.len() implies is_ascii_graphic(#[trigger] s[i]) && '\0'
        <= s[i] <= '\u{7f}' by {
        if is_hyphenated_uuid_text(s) && is_hyphen_position(i) {
            assert(s[i] == '-');
        } else {
            assert(is_ascii_hex_digit(s[i]));
        }
    }
}

/// ASCII lowercase keeps ASCII text ASCII and has the same length.
proof fn lemma_ascii_lowercase_ascii(s: Seq<char>)
    requires
        is_ascii_chars(s),
    ensures
        is_ascii_chars(ascii_lowercase(s)),
        ascii_lowercase(s).len() == s.len(),
{
    let l = ascii_lowercase(s);
    assert forall|i: int| 0 <= i < l.len() implies '\0' <= #[trigger] l[i] <= '\u{7f}' by {
        assert('\0' <= s[i] <= '\u{7f}');
    }
}

/// ASCII lowercase is idempotent.
proof fn lemma_ascii_lowercase_idempotent(s: Seq<char>)
    ensures
        ascii_lowercase(ascii_lowercase(s)) == ascii_lowercase(s),
{
    assert(ascii_lowercase(ascii_lowercase(s)) =~= ascii_lowercase(s));
}

/// Lowercasing keeps text hyphenated.
proof fn lemma_hyphenated_text_lowercase(s: Seq<char>)
    requires
        is_hyphenated_uuid_text(s),
    ensures
        is_hyphenated_uuid_text(ascii_lowercase(s)),
{
    let l = ascii_lowercase(s);
    assert forall|i: int| 0 <= i < 36 implies (if is_hyphen_position(i) {
        l[i] == '-'
    } else {
        is_ascii_hex_digit(#[trigger] l[i])
    }) by {
        if is_hyphen_position(i) {
            assert(s[i] == '-');
        } else {
            assert(is_ascii_hex_digit(s[i]));
        }
    }
}

/// A short UUID widens to hyphenated lowercase text.
proof fn lemma_short_uuid_text(s: Seq<char>)
    requires
        is_hex_text(s, 4) || is_hex_text(s, 8),
    ensures
        is_hyphenated_uuid_text(short_uuid_text(s)),
        ascii_lowercase(short_uuid_text(s)) == short_uuid_text(s),
{
    reveal_strlit("0000");
    reveal_strlit("-0000-1000-8000-00805f9b34fb");
    let t = short_uuid_text(s);
    let l = ascii_lowercase(s);
    assert forall|i: int| 0 <= i < l.len() implies is_ascii_hex_digit(#[trigger] l[i]) && ascii_lower(l[i]) == l[i] by {
        assert(is_ascii_hex_digit(s[i]));
    }
    assert(t.len() == 36);
    assert forall|i: int| 0 <= i < 36 implies (if is_hyphen_position(i) {
        t[i] == '-'
    } else {
        is_ascii_hex_digit(#[trigger] t[i])
    }) && ascii_lower(t[i]) == t[i] by {
        if s.len() == 4 {
            if 4 <= i < 8 {
                assert(t[i] == l[i - 4]);
            }
        } else {
            if i < 8 {
                assert(t[i] == l[i]);
            }
        }
    }
    assert(ascii_lowercase(t) =~= t);
}

/// Hex digits of nibbles are lowercase ASCII hex digits.
proof fn lemma_hex_digit_lower(n: int)
    requires
        0 <= n < 16,
    ensures
        is_ascii_hex_digit(hex_digit_lower(n)),
        is_ascii_graphic(hex_digit_lower(n)),
        ascii_lower(hex_digit_lower(n)) == hex_digit_lower(n),
{
}

/// The rendering of a UUID is hyphenated text made of lowercase ASCII.
pub proof fn lemma_hyphenated_lower_ascii(v: u128)
    ensures
        is_hyphenated_uuid_text(hyphenated_lower(v)),
        is_ascii_chars(hyphenated_lower(v)),
        ascii_lowercase(hyphenated_lower(v)) == hyphenated_lower(v),
        forall|i: int| 0 <= i < 36 ==> is_ascii_graphic(#[trigger] hyphenated_lower(v)[i]),
{
    let h = hyphenated_lower(v);
    let s = simple_hex_lower(v);
    assert forall|i: int| 0 <= i < 32 implies {
        &&& is_ascii_hex_digit(#[trigger] s[i])
        &&& is_ascii_graphic(s[i])
        &&& ascii_lower(s[i]) == s[i]
    } by {
        assert(0 <= nibble(v, i) < 16) by {
            vstd::arithmetic::power::lemma_pow_positive(16, (31 - i) as nat);
        }
        lemma_hex_digit_lower(nibble(v, i));
    }
    assert(h.len() == 36);
    assert forall|i: int| 0 <= i < 36 implies {
        &&& (if is_hyphen_position(i) { h[i] == '-' } else { is_ascii_hex_digit(#[trigger] h[i]) })
        &&& is_ascii_graphic(h[i])
        &&& ascii_lower(h[i]) == h[i]
        &&& '\0' <= h[i] <= '\u{7f}'
    } by {
        if i < 8 {
            assert(h[i] == s[i]);
        } else if i == 8 {
        } else if i < 13 {
            assert(h[i] == s[i - 1]);
        } else if i == 13 {
        } else if i < 18 {
            assert(h[i] == s[i - 2]);
        } else if i == 18 {
        } else if i < 23 {
            assert(h[i] == s[i - 3]);
        } else if i == 23 {
        } else {
            assert(h[i] == s[i - 4]);
        }
    }
    assert(ascii_lowercase(h) =~= h);
}

} // verus!
