//! The `Bearer` credential that a configured bridge asks of a request.
use axum::http::header::ToStrError;
use axum::http::{HeaderMap, HeaderValue};
use subtle::ConstantTimeEq;
use vstd::prelude::*;
use vstd::string::*;

use crate::text::concat;

verus! {

/// The outside type `HeaderMap` of `axum::http`, opaque here.
#[verifier::external_type_specification]
#[verifier::external_body]
#[verifier::reject_recursive_types(T)]
pub struct ExHeaderMap<T>(HeaderMap<T>);

/// The outside type `HeaderValue` of `axum::http`, opaque here.
#[verifier::external_type_specification]
#[verifier::external_body]
pub struct ExHeaderValue(HeaderValue);

/// The outside type `ToStrError` of `axum::http`, opaque here.
#[verifier::external_type_specification]
#[verifier::external_body]
pub struct ExToStrError(ToStrError);

/// The bytes of the values that a header map holds under a name, in order.
pub uninterp spec fn header_values(headers: HeaderMap<HeaderValue>, name: Seq<char>) -> Seq<
    Seq<u8>,
>;

/// The bytes of a header value.
pub uninterp spec fn header_bytes(value: HeaderValue) -> Seq<u8>;

/// Whether a byte is a visible ASCII character, a space or a tab.
pub open spec fn is_visible(byte: u8) -> bool {
    32 <= byte < 127 || byte == 9
}

/// The text of a header value; `None` where a byte of it is not visible ASCII.
pub open spec fn header_text(bytes: Seq<u8>) -> Option<Seq<char>> {
    if forall|i: int| 0 <= i < bytes.len() ==> is_visible(#[trigger] bytes[i]) {
        Some(Seq::new(bytes.len(), |i: int| bytes[i] as char))
    } else {
        None
    }
}

/// The text of the first value that a header map holds under a name, where it is visible ASCII.
pub open spec fn first_text(headers: HeaderMap<HeaderValue>, name: Seq<char>) -> Option<Seq<char>> {
    if header_values(headers, name).len() == 0 {
        None
    } else {
        header_text(header_values(headers, name)[0])
    }
}

/// Whether a request that presents a credential is let in: always where no key is expected, else
/// only with exactly `Bearer` and the key.
pub open spec fn admitted(presented: Option<Seq<char>>, expected: Option<Seq<char>>) -> bool {
    match expected {
        None => true,
        Some(key) => presented == Some("Bearer "@ + key),
    }
}

/// `HeaderMap::get` with a string key: the first value under the name.
#[verifier::external_body]
fn header_get<'a>(headers: &'a HeaderMap<HeaderValue>, name: &str) -> (result: Option<
    &'a HeaderValue,
>)
    ensures
        match result {
            Some(value) => {
                &&& header_values(*headers, name@).len() > 0
                &&& header_bytes(*value) == header_values(*headers, name@)[0]
            },
            None => header_values(*headers, name@).len() == 0,
        },
{
    headers.get(name)
}

/// `HeaderValue::to_str`: the text of a value whose every byte is visible ASCII, else an error.
#[verifier::external_body]
fn header_str(value: &HeaderValue) -> (result: Result<&str, ToStrError>)
    ensures
        (match result {
            Ok(text) => Some(text@),
            Err(_) => None,
        }) == header_text(header_bytes(*value)),
{
    value.to_str()
}

/// `ConstantTimeEq::ct_eq` on byte slices: whether they are equal.
#[verifier::external_body]
fn bytes_equal(left: &[u8], right: &[u8]) -> (result: bool)
    ensures
        result == (left@ == right@),
{
    left.ct_eq(right).into()
}

/// Whether a presented credential is `Bearer` and the expected key.
pub fn credential_matches(presented: &str, expected: &str) -> (result: bool)
    ensures
        result == (presented@ == "Bearer "@ + expected@),
{
    let expected_header = concat("Bearer ", expected);
    proof {
        vstd::utf8::encode_utf8_decode_utf8(presented@);
        vstd::utf8::encode_utf8_decode_utf8(expected_header@);
    }
    bytes_equal(presented.as_bytes(), expected_header.as_str().as_bytes())
}

/// Whether the request carries the configured `Bearer` credential; open when no key is configured.
pub fn authorized(headers: &HeaderMap<HeaderValue>, bridge_key: Option<&String>) -> (result: bool)
    ensures
        result == admitted(
            first_text(*headers, "authorization"@),
            match bridge_key {
                Some(key) => Some(key@),
                None => None,
            },
        ),
{
    let Some(expected) = bridge_key else {
        return true;
    };
    let Some(header) = header_get(headers, "authorization") else {
        return false;
    };
    let Ok(value) = header_str(header) else {
        return false;
    };
    credential_matches(value, expected.as_str())
}

/// The key that a bridge expects, out of its setting: an empty setting is none.
pub fn configured_key(setting: Option<String>) -> (key: Option<String>)
    ensures
        key == (match setting {
            Some(text) => if text@.len() == 0 {
                None
            } else {
                Some(text)
            },
            None => None,
        }),
{
    match setting {
        Some(text) => if text.as_str().is_empty() {
            None
        } else {
            Some(text)
        },
        None => None,
    }
}

} // verus!
