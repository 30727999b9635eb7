//! The header maps of requests and replies.

use vstd::prelude::*;

use http::header::ToStrError;
use http::{HeaderMap, HeaderValue};

verus! {

/// `http::HeaderMap`, whose contents `header_entries` names.
#[verifier::external_type_specification]
#[verifier::external_body]
#[verifier::reject_recursive_types(T)]
pub struct ExHeaderMap<T>(HeaderMap<T>);

/// `http::HeaderValue`, whose bytes `header_value_bytes` names.
#[verifier::external_type_specification]
#[verifier::external_body]
pub struct ExHeaderValue(HeaderValue);

/// `http::header::ToStrError`, the error of `HeaderValue::to_str`.
#[verifier::external_type_specification]
#[verifier::external_body]
pub struct ExToStrError(ToStrError);

/// What a header map holds: each header's name (in lower case) with the
/// bytes of its values, in the order in which they were added.
pub uninterp spec fn header_entries(m: HeaderMap) -> Map<Seq<char>, Seq<Seq<u8>>>;

/// The bytes of a header value.
pub uninterp spec fn header_value_bytes(v: HeaderValue) -> Seq<u8>;

/// A header name as `HeaderMap::get` finds it unchanged: lower-case letters,
/// digits and dashes.
pub open spec fn is_lower_header_name(name: Seq<char>) -> bool {
    &&& name.len() > 0
    &&& forall|i: int|
        0 <= i < name.len() ==> {
            let c = #[trigger] name[i];
            ('a' <= c <= 'z') || ('0' <= c <= '9') || c == '-'
        }
}

/// A byte that `HeaderValue::to_str` accepts: visible ASCII or a tab.
pub open spec fn is_visible_ascii(b: u8) -> bool {
    (32 <= b && b < 127) || b == 9
}

/// Whether every byte is visible ASCII or a tab.
pub open spec fn all_visible_ascii(bytes: Seq<u8>) -> bool {
    forall|i: int| 0 <= i < bytes.len() ==> is_visible_ascii(#[trigger] bytes[i])
}

/// The characters of ASCII bytes.
pub open spec fn ascii_chars(bytes: Seq<u8>) -> Seq<char> {
    bytes.map_values(|b: u8| b as char)
}

/// `HeaderMap::new`: a map with no headers.
#[verifier::external_body]
pub(crate) fn empty_headers() -> (m: HeaderMap)
    ensures
        header_entries(m) =~= Map::empty(),
{
    HeaderMap::new()
}

/// `HeaderMap`'s `Clone`: nothing is stated of the copy.
pub assume_specification<T: Clone>[<HeaderMap<T> as Clone>::clone](m: &HeaderMap<T>) -> HeaderMap<T>;

/// `HeaderMap::get`: the first value under `name`, where there is one.
#[verifier::external_body]
fn header_get<'a>(headers: &'a HeaderMap, name: &str) -> (r: Option<&'a HeaderValue>)
    requires
        is_lower_header_name(name@),
    ensures
        r is Some <==> header_entries(*headers).contains_key(name@),
        r matches Some(v) ==> header_entries(*headers)[name@].len() > 0 && header_value_bytes(*v)
            == header_entries(*headers)[name@][0],
{
    headers.get(name)
}

/// `HeaderValue::to_str`: the value as text, where it is all visible ASCII.
#[verifier::external_body]
fn header_value_text<'a>(v: &'a HeaderValue) -> (r: Result<&'a str, ToStrError>)
    ensures
        r is Ok <==> all_visible_ascii(header_value_bytes(*v)),
        r matches Ok(s) ==> s@ == ascii_chars(header_value_bytes(*v)),
{
    v.to_str()
}

/// The first value under `name`, where the map holds the name.
pub open spec fn first_value(m: HeaderMap, name: Seq<char>) -> Option<Seq<u8>> {
    if header_entries(m).contains_key(name) {
        Some(header_entries(m)[name][0])
    } else {
        None
    }
}

/// The identifier that the endpoint gave its reply: the first value of the
/// `x-request-id` header, where there is one and it is visible ASCII.
pub fn upstream_request_id(headers: &HeaderMap) -> (r: Option<String>)
    ensures
        r is Some <==> (first_value(*headers, "x-request-id"@) matches Some(v) && all_visible_ascii(v)),
        r matches Some(id) ==> id@ == ascii_chars(first_value(*headers, "x-request-id"@)->0),
{
    let name = "x-request-id";
    proof {
        reveal_strlit("x-request-id");
    }
    match header_get(headers, name) {
        Some(value) => match header_value_text(value) {
            Ok(text) => Some(text.to_owned()),
            Err(_) => None,
        },
        None => None,
    }
}

} // verus!
