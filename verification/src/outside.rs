//! The calls into other crates and into parts of `std` that have no
//! specification of their own. What the contracts in this file say of those
//! calls is taken as given; everything else in the library is proved.

use vstd::prelude::*;
use vstd::string::*;
use vstd::utf8::*;

#[allow(unused_imports)]
use crate::number::decimal;
#[allow(unused_imports)]
use crate::text::{ascii_lowercase, byte_len, option_text, texts};

verus! {

/// `serde_json::Value`: a JSON value, opaque.
#[verifier::external_type_specification]
#[verifier::external_body]
pub struct ExJsonValue(serde_json::Value);

/// The text that `String::from_utf8_lossy` makes of bytes.
pub uninterp spec fn lossy_text(bytes: Seq<u8>) -> Seq<char>;

/// The text that `str::to_lowercase` makes of a text.
pub uninterp spec fn lowercase(s: Seq<char>) -> Seq<char>;

/// What `char::is_alphanumeric` says of a character.
pub uninterp spec fn alphanumeric(c: char) -> bool;

/// The phrase that `http` puts behind a status code when it displays it: the
/// canonical reason, or a remark that the code is unknown.
pub uninterp spec fn status_phrase(code: u16) -> Seq<char>;

/// The text inside each element of an HTML document that a CSS selector
/// selects, in the order in which `select` yields them.
pub uninterp spec fn element_texts(html: Seq<char>, selector: Seq<char>) -> Seq<Seq<char>>;

/// The value of an attribute, where there is one, of each element of an HTML
/// document that a CSS selector selects, in the order in which `select` yields
/// them.
pub uninterp spec fn element_attributes(
    html: Seq<char>,
    selector: Seq<char>,
    attribute: Seq<char>,
) -> Seq<Option<Seq<char>>>;

/// The members of a JSON object whose values are strings; nothing for a value
/// that is no object.
pub uninterp spec fn string_members(value: serde_json::Value) -> Map<Seq<char>, Seq<char>>;

/// The string members of each value in a JSON array; nothing where the bytes
/// are no JSON array.
pub uninterp spec fn json_array(body: Seq<u8>) -> Option<Seq<Map<Seq<char>, Seq<char>>>>;

/// The most bytes of an HTML document that is parsed. The parser keeps text in
/// buffers that cannot grow beyond 2147483648 bytes, and writes three bytes for
/// each NUL that it replaces; nothing else in a document grows as much.
pub const MAX_PAGE_BYTES: usize = 0x2AAA_AAAA;

pub open spec fn is_ascii_alphanumeric(c: char) -> bool {
    'a' <= c <= 'z' || 'A' <= c <= 'Z' || '0' <= c <= '9'
}

/// Lower-case ASCII letters and hyphens, beginning with a letter.
pub open spec fn is_plain_name(s: Seq<char>) -> bool {
    &&& s.len() > 0
    &&& 'a' <= s.first() <= 'z'
    &&& forall|i: int| 0 <= i < s.len() ==> 'a' <= #[trigger] s[i] <= 'z' || s[i] == '-'
}

/// A CSS selector for the elements of one kind that have one class: two plain
/// names with a dot between them.
pub open spec fn is_class_selector(s: Seq<char>) -> bool {
    exists|dot: int|
        0 <= dot < s.len() && #[trigger] s[dot] == '.' && is_plain_name(s.take(dot))
            && is_plain_name(s.skip(dot + 1))
}

/// `String::from_utf8`: the text that the bytes encode, if they are UTF-8.
#[verifier::external_body]
pub(crate) fn utf8_string(bytes: Vec<u8>) -> (r: Option<String>)
    ensures
        match r {
            Some(s) => valid_utf8(bytes@) && s@ == decode_utf8(bytes@),
            None => !valid_utf8(bytes@),
        },
{
    String::from_utf8(bytes).ok()
}

/// `String::from_utf8_lossy`: the text that the bytes encode where they are
/// UTF-8. What stands for bytes that are not is left to the function's name.
#[verifier::external_body]
pub(crate) fn utf8_lossy(bytes: &[u8]) -> (r: String)
    ensures
        r@ == lossy_text(bytes@),
        valid_utf8(bytes@) ==> r@ == decode_utf8(bytes@),
{
    String::from_utf8_lossy(bytes).into_owned()
}

/// `str::to_lowercase`: Unicode lower case. Of ASCII text it is known to map
/// the letters and nothing else; of other text only that it is a function.
#[verifier::external_body]
pub(crate) fn to_lowercase(s: &str) -> (r: String)
    ensures
        r@ == lowercase(s@),
        is_ascii_chars(s@) ==> r@ == ascii_lowercase(s@),
{
    s.to_lowercase()
}

/// `char::is_alphanumeric`: Unicode letters and numbers. In ASCII those are
/// the letters and the digits.
#[verifier::external_body]
pub(crate) fn is_alphanumeric(c: char) -> (r: bool)
    ensures
        r == alphanumeric(c),
        c <= '\u{7f}' ==> r == is_ascii_alphanumeric(c),
{
    c.is_alphanumeric()
}

/// `reqwest::StatusCode` as it is displayed: the code in decimal, a space and
/// a phrase. Codes outside the range are no status codes, and the conversion
/// fails on them.
#[verifier::external_body]
pub(crate) fn status_text(code: u16) -> (r: String)
    requires
        100 <= code <= 999,
    ensures
        r@ == decimal(code as nat) + seq![' '] + status_phrase(code),
{
    reqwest::StatusCode::from_u16(code).unwrap().to_string()
}

/// `scraper::Html::select` on a parsed document, and the text of each element
/// that it yields. A class selector always parses, and a document of no more
/// than `MAX_PAGE_BYTES` fits the parser's buffers.
#[verifier::external_body]
pub(crate) fn selected_texts(html: &str, selector: &str) -> (r: Vec<String>)
    requires
        is_class_selector(selector@),
        byte_len(html@) <= MAX_PAGE_BYTES,
    ensures
        texts(r@) == element_texts(html@, selector@),
{
    let selector = scraper::Selector::parse(selector).unwrap();
    scraper::Html::parse_document(html).select(&selector).map(|el| el.text().collect()).collect()
}

/// `scraper::Html::select` on a parsed document, and one attribute of each
/// element that it yields, where the element has it. A class selector always
/// parses, and a document of no more than `MAX_PAGE_BYTES` fits the parser's
/// buffers.
#[verifier::external_body]
pub(crate) fn selected_attributes(html: &str, selector: &str, attribute: &str) -> (r: Vec<
    Option<String>,
>)
    requires
        is_class_selector(selector@),
        byte_len(html@) <= MAX_PAGE_BYTES,
    ensures
        r@.map_values(|a: Option<String>| option_text(a)) == element_attributes(
            html@,
            selector@,
            attribute@,
        ),
{
    let selector = scraper::Selector::parse(selector).unwrap();
    scraper::Html::parse_document(html)
        .select(&selector)
        .map(|el| el.value().attr(attribute).map(String::from))
        .collect()
}

/// `serde_json::from_slice` to a list of JSON values: the values of the array
/// that the bytes hold, or nothing where it fails.
#[verifier::external_body]
pub(crate) fn parse_json_array(body: &[u8]) -> (r: Option<Vec<serde_json::Value>>)
    ensures
        match r {
            Some(values) => json_array(body@) == Some(
                values@.map_values(|v: serde_json::Value| string_members(v)),
            ),
            None => json_array(body@) is None,
        },
{
    serde_json::from_slice(body).ok()
}

/// Indexing a `serde_json::Value` by a key, and `as_str` on what stands there:
/// the string under the key, or nothing where there is no string.
#[verifier::external_body]
pub(crate) fn string_member(value: &serde_json::Value, key: &str) -> (r: Option<String>)
    ensures
        option_text(r) == if string_members(*value).contains_key(key@) {
            Some(string_members(*value)[key@])
        } else {
            None
        },
{
    value[key].as_str().map(String::from)
}

} // verus!
