//! The header fields of a request, read by name.

use crate::text::is_lowercase;
use axum::http::{HeaderMap, HeaderValue};
use vstd::prelude::*;

verus! {

pub const ACCEPT: &'static str = "accept";

pub const AUTHORIZATION: &'static str = "authorization";

pub const CONTENT_ENCODING: &'static str = "content-encoding";

pub const CONTENT_TYPE: &'static str = "content-type";

pub const HOST: &'static str = "host";

pub const ORIGIN: &'static str = "origin";

/// `axum::http::HeaderMap`, a multimap from header names to values; opaque to the verifier.
#[verifier::external_type_specification]
#[verifier::external_body]
#[verifier::reject_recursive_types(T)]
pub struct ExHeaderMap<T>(axum::http::HeaderMap<T>);

/// `axum::http::HeaderValue`, one value of a header field; opaque to the verifier.
#[verifier::external_type_specification]
#[verifier::external_body]
pub struct ExHeaderValue(axum::http::HeaderValue);

/// What a header map holds: under each name, in lower case, the bytes of its values in the order
/// in which they were added.
pub uninterp spec fn header_contents(headers: HeaderMap<HeaderValue>) -> Map<
    Seq<char>,
    Seq<Seq<u8>>,
>;

/// The values under `name`: none where the name is absent.
pub open spec fn values_under(contents: Map<Seq<char>, Seq<Seq<u8>>>, name: Seq<char>) -> Seq<
    Seq<u8>,
> {
    if contents.contains_key(name) {
        contents[name]
    } else {
        Seq::empty()
    }
}

/// The views of a list of header values.
pub open spec fn bytes_of(values: Seq<Vec<u8>>) -> Seq<Seq<u8>> {
    values.map_values(|value: Vec<u8>| value@)
}

/// The view of a header value that may be absent.
pub open spec fn bytes_in(value: Option<Vec<u8>>) -> Option<Seq<u8>> {
    match value {
        Some(value) => Some(value@),
        None => None,
    }
}

/// The value of a field that must be given exactly once.
pub open spec fn single(values: Seq<Seq<u8>>) -> Option<Seq<u8>> {
    if values.len() == 1 {
        Some(values[0])
    } else {
        None
    }
}

/// A byte that a textual header value can hold: visible ASCII, a space or a tab.
pub open spec fn is_visible(byte: u8) -> bool {
    0x20 <= byte <= 0x7e || byte == 0x09
}

/// Every byte of the value is visible ASCII, a space or a tab.
pub open spec fn is_text(value: Seq<u8>) -> bool {
    forall|i: int| 0 <= i < value.len() ==> is_visible(#[trigger] value[i])
}

/// Calls `HeaderMap::get_all` and copies out the bytes of each value that its iterator yields.
///
/// Trusted: for a name without upper-case letters these are the values that the map holds under
/// that name, in the order in which they were added, and none where the map holds no such name.
#[verifier::external_body]
pub(crate) fn all_values(headers: &HeaderMap, name: &str) -> (values: Vec<Vec<u8>>)
    requires
        is_lowercase(name@),
    ensures
        bytes_of(values@) == values_under(header_contents(*headers), name@),
{
    headers.get_all(name).iter().map(|value| value.as_bytes().to_vec()).collect()
}

/// Calls `HeaderMap::contains_key`.
///
/// Trusted: for a name without upper-case letters it tells whether the map holds a value under
/// that name.
#[verifier::external_body]
fn holds_name(headers: &HeaderMap, name: &str) -> (present: bool)
    requires
        is_lowercase(name@),
    ensures
        present == (values_under(header_contents(*headers), name@).len() > 0),
{
    headers.contains_key(name)
}

/// The one value in a list of one: none where the list is empty or longer.
pub fn single_value(values: Vec<Vec<u8>>) -> (value: Option<Vec<u8>>)
    ensures
        bytes_in(value) == single(bytes_of(values@)),
{
    let mut values = values;
    if values.len() != 1 {
        return None;
    }
    let ghost all = values@;
    let value = values.pop();
    assert(all.last() == all[0]);
    value
}

/// The value of a field that must be given exactly once: none where it is absent or repeated.
pub fn single_header(headers: &HeaderMap, name: &str) -> (value: Option<Vec<u8>>)
    requires
        is_lowercase(name@),
    ensures
        bytes_in(value) == single(values_under(header_contents(*headers), name@)),
{
    single_value(all_values(headers, name))
}

/// The value of a field that may be left out: none where it is absent, and `Some(None)` where it
/// is repeated.
pub fn optional_single_header(headers: &HeaderMap, name: &str) -> (value: Option<Option<Vec<u8>>>)
    requires
        is_lowercase(name@),
    ensures
        match value {
            None => values_under(header_contents(*headers), name@).len() == 0,
            Some(value) => {
                &&& values_under(header_contents(*headers), name@).len() > 0
                &&& bytes_in(value) == single(values_under(header_contents(*headers), name@))
            },
        },
{
    if !holds_name(headers, name) {
        return None;
    }
    Some(single_header(headers, name))
}

/// Whether a value is text: only visible ASCII, spaces and tabs.
pub fn is_visible_text(value: &[u8]) -> (visible: bool)
    ensures
        visible == is_text(value@),
{
    for i in 0..value.len()
        invariant
            forall|j: int| 0 <= j < i ==> is_visible(#[trigger] value@[j]),
    {
        let byte: u8 = value[i];
        if !(0x20 <= byte && byte <= 0x7e || byte == 0x09) {
            return false;
        }
    }
    true
}

/// A field is given once exactly where there is one value, and then that value is read.
pub proof fn law_single_is_the_only_value(values: Seq<Seq<u8>>, value: Seq<u8>)
    ensures
        single(values) == Some(value) <==> values.len() == 1 && values[0] == value,
        single(values) is None <==> values.len() != 1,
{
}

/// A value is text exactly where each byte is one of the printable ASCII characters, a space or a
/// tab.
pub proof fn law_text_is_printable(value: Seq<u8>)
    ensures
        is_text(value) <==> forall|i: int|
            0 <= i < value.len() ==> 0x20 <= #[trigger] value[i] && value[i] < 0x7f || value[i]
                == 0x09,
{
    if is_text(value) {
        assert forall|i: int| 0 <= i < value.len() implies 0x20 <= #[trigger] value[i] && value[i]
            < 0x7f || value[i] == 0x09 by {
            assert(is_visible(value[i]));
        }
    }
}

/// The values under a name are those that the map holds there, all of them and in their order, and
/// none under a name that it does not hold.
pub proof fn law_values_are_those_under_the_name(
    contents: Map<Seq<char>, Seq<Seq<u8>>>,
    name: Seq<char>,
    values: Seq<Seq<u8>>,
)
    ensures
        values_under(contents.insert(name, values), name) == values,
        values_under(contents.remove(name), name).len() == 0,
{
}

/// Nothing of a list of values is lost in its view.
pub proof fn law_bytes_are_shown_as_they_are(values: Seq<Vec<u8>>, value: Vec<u8>)
    ensures
        bytes_of(values).len() == values.len(),
        forall|i: int| 0 <= i < values.len() ==> #[trigger] bytes_of(values)[i] == values[i]@,
        bytes_in(Some(value)) == Some(value@),
        bytes_in(None) is None,
{
}

} // verus!
