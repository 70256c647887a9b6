//! What a request says of its body and of the bodies it takes back.

use crate::headers::{
    all_values, bytes_in, bytes_of, header_contents, is_text, is_visible_text,
    law_text_is_printable, single, single_header, values_under, ACCEPT, CONTENT_ENCODING,
    CONTENT_TYPE,
};
use crate::text::{
    ascii, ascii_bytes, before, equal_ignoring_case, law_blanks_at_the_ends_are_trimmed,
    law_case_is_all_that_is_ignored, law_cut_at_the_first_occurrence, lemma_position, parts_of,
    position, same_ignoring_case, split, split_at_each, take_before, trim, trimmed,
};
use axum::http::HeaderMap;
use vstd::prelude::*;

verus! {

/// The media type of a field item: what stands before its parameters, without blanks around it.
pub open spec fn media_type(item: Seq<u8>) -> Seq<u8> {
    trimmed(before(item, 0x3b))
}

/// The item names the media type `name`, in any case and with any parameters.
pub open spec fn names(item: Seq<u8>, name: Seq<char>) -> bool {
    same_ignoring_case(media_type(item), ascii(name))
}

/// One of the comma-separated items of `value` names the media type `name`.
pub open spec fn offers(value: Seq<u8>, name: Seq<char>) -> bool {
    exists|k: int|
        0 <= k < split(value, 0x2c).len() && names(#[trigger] split(value, 0x2c)[k], name)
}

/// The body is declared once, and as JSON.
pub open spec fn is_json(content_type: Option<Seq<u8>>) -> bool {
    content_type matches Some(value) && is_text(value) && names(value, "application/json"@)
}

/// Some declared content encoding is not the identity.
pub open spec fn is_encoded(values: Seq<Seq<u8>>) -> bool {
    exists|i: int|
        0 <= i < values.len() && !(is_text(#[trigger] values[i]) && same_ignoring_case(
            values[i],
            ascii("identity"@),
        ))
}

/// Every value is text.
pub open spec fn all_text(values: Seq<Seq<u8>>) -> bool {
    forall|i: int| 0 <= i < values.len() ==> is_text(#[trigger] values[i])
}

/// Some value offers the media type `name`.
pub open spec fn some_offers(values: Seq<Seq<u8>>, name: Seq<char>) -> bool {
    exists|i: int| 0 <= i < values.len() && offers(#[trigger] values[i], name)
}

/// The value at `i` offers `*/*`, and neither it nor a value before it is anything but text.
pub open spec fn takes_anything_at(values: Seq<Seq<u8>>, i: int) -> bool {
    &&& offers(values[i], "*/*"@)
    &&& all_text(values.take(i + 1))
}

/// The response may be JSON or an event stream, as the server chooses: either both are offered by
/// values that are all text, or `*/*` is offered before any value that is not text.
pub open spec fn takes_both(values: Seq<Seq<u8>>) -> bool {
    ||| exists|i: int| 0 <= i < values.len() && #[trigger] takes_anything_at(values, i)
    ||| {
        &&& all_text(values)
        &&& some_offers(values, "application/json"@) || some_offers(values, "application/*"@)
        &&& some_offers(values, "text/event-stream"@) || some_offers(values, "text/*"@)
    }
}

fn item_names(item: &[u8], name: &str) -> (named: bool)
    requires
        name.is_ascii(),
    ensures
        named == names(item@, name@),
{
    equal_ignoring_case(trim(take_before(item, 0x3b)), ascii_bytes(name))
}

/// Whether a content type that was given once says JSON.
pub fn content_type_is_json(content_type: &Option<Vec<u8>>) -> (json: bool)
    ensures
        json == is_json(bytes_in(*content_type)),
{
    proof {
        reveal_strlit("application/json");
    }
    match content_type {
        Some(value) => is_visible_text(value.as_slice()) && item_names(
            value.as_slice(),
            "application/json",
        ),
        None => false,
    }
}

/// Whether the request declares its body once, and as JSON.
pub fn is_json_content_type(headers: &HeaderMap) -> (json: bool)
    ensures
        json == is_json(single(values_under(header_contents(*headers), CONTENT_TYPE@))),
{
    proof {
        reveal_strlit("content-type");
    }
    content_type_is_json(&single_header(headers, CONTENT_TYPE))
}

/// Whether one of the declared content encodings is not the identity.
pub fn encoding_is_unsupported(values: &Vec<Vec<u8>>) -> (unsupported: bool)
    ensures
        unsupported == is_encoded(bytes_of(values@)),
{
    proof {
        reveal_strlit("identity");
    }
    let ghost all = bytes_of(values@);
    for i in 0..values.len()
        invariant
            all == bytes_of(values@),
            "identity".is_ascii(),
            forall|j: int|
                0 <= j < i ==> is_text(#[trigger] all[j]) && same_ignoring_case(
                    all[j],
                    ascii("identity"@),
                ),
    {
        let value = values[i].as_slice();
        assert(all[i as int] == value@);
        if !is_visible_text(value) || !equal_ignoring_case(value, ascii_bytes("identity")) {
            return true;
        }
    }
    false
}

/// Whether the request declares a content encoding that is not the identity.
pub fn has_unsupported_content_encoding(headers: &HeaderMap) -> (unsupported: bool)
    ensures
        unsupported == is_encoded(values_under(header_contents(*headers), CONTENT_ENCODING@)),
{
    proof {
        reveal_strlit("content-encoding");
    }
    encoding_is_unsupported(&all_values(headers, CONTENT_ENCODING))
}

/// What one value of the accept field offers.
struct Offer {
    anything: bool,
    json: bool,
    events: bool,
}

spec fn names_json(item: Seq<u8>) -> bool {
    names(item, "application/json"@) || names(item, "application/*"@)
}

spec fn names_events(item: Seq<u8>) -> bool {
    names(item, "text/event-stream"@) || names(item, "text/*"@)
}

fn read_offer(value: &[u8]) -> (offer: Offer)
    ensures
        offer.anything == offers(value@, "*/*"@),
        offer.json == (offers(value@, "application/json"@) || offers(value@, "application/*"@)),
        offer.events == (offers(value@, "text/event-stream"@) || offers(value@, "text/*"@)),
{
    proof {
        reveal_strlit("*/*");
        reveal_strlit("application/json");
        reveal_strlit("application/*");
        reveal_strlit("text/event-stream");
        reveal_strlit("text/*");
    }
    let items = split_at_each(value, 0x2c);
    let ghost all = split(value@, 0x2c);
    let mut offer = Offer { anything: false, json: false, events: false };
    for i in 0..items.len()
        invariant
            all == split(value@, 0x2c),
            all == parts_of(items@),
            "*/*".is_ascii(),
            "application/json".is_ascii(),
            "application/*".is_ascii(),
            "text/event-stream".is_ascii(),
            "text/*".is_ascii(),
            offer.anything == exists|k: int| 0 <= k < i && names(#[trigger] all[k], "*/*"@),
            offer.json == exists|k: int| 0 <= k < i && names_json(#[trigger] all[k]),
            offer.events == exists|k: int| 0 <= k < i && names_events(#[trigger] all[k]),
    {
        let item = items[i];
        assert(all[i as int] == item@);
        if item_names(item, "*/*") {
            offer.anything = true;
        }
        if item_names(item, "application/json") || item_names(item, "application/*") {
            offer.json = true;
        }
        if item_names(item, "text/event-stream") || item_names(item, "text/*") {
            offer.events = true;
        }
    }
    offer
}

/// Whether the values of the accept field leave the server free to answer with JSON or with an
/// event stream.
pub fn accept_takes_both(values: &Vec<Vec<u8>>) -> (accepted: bool)
    ensures
        accepted == takes_both(bytes_of(values@)),
{
    let ghost all = bytes_of(values@);
    let mut json: bool = false;
    let mut events: bool = false;
    for i in 0..values.len()
        invariant
            all == bytes_of(values@),
            all_text(all.take(i as int)),
            forall|j: int| 0 <= j < i ==> !offers(#[trigger] all[j], "*/*"@),
            json == exists|j: int|
                0 <= j < i && (offers(#[trigger] all[j], "application/json"@) || offers(
                    all[j],
                    "application/*"@,
                )),
            events == exists|j: int|
                0 <= j < i && (offers(#[trigger] all[j], "text/event-stream"@) || offers(
                    all[j],
                    "text/*"@,
                )),
    {
        let value = values[i].as_slice();
        assert(all[i as int] == value@);
        if !is_visible_text(value) {
            assert(!all_text(all));
            assert forall|k: int| 0 <= k < all.len() implies !takes_anything_at(all, k) by {
                if k >= i {
                    assert(all.take(k + 1)[i as int] == all[i as int]);
                }
            }
            return false;
        }
        assert(all_text(all.take(i + 1))) by {
            assert forall|j: int| 0 <= j < i + 1 implies is_text(#[trigger] all.take(i + 1)[j]) by {
                if j < i {
                    assert(all.take(i as int)[j] == all[j]);
                }
            }
        }
        let offer = read_offer(value);
        if offer.anything {
            assert(takes_anything_at(all, i as int));
            return true;
        }
        if offer.json {
            json = true;
        }
        if offer.events {
            events = true;
        }
    }
    assert(all.take(all.len() as int) =~= all);
    assert forall|k: int| 0 <= k < all.len() implies !takes_anything_at(all, k) by {}
    json && events
}

/// Whether the request leaves the server free to answer with JSON or with an event stream.
pub fn accepts_mcp_response(headers: &HeaderMap) -> (accepted: bool)
    ensures
        accepted == takes_both(values_under(header_contents(*headers), ACCEPT@)),
{
    proof {
        reveal_strlit("accept");
    }
    accept_takes_both(&all_values(headers, ACCEPT))
}

/// Parameters after a media type do not matter.
pub proof fn law_parameters_do_not_matter(item: Seq<u8>, parameters: Seq<u8>, name: Seq<char>)
    requires
        !item.contains(0x3b),
    ensures
        names(item + seq![0x3bu8] + parameters, name) == names(item, name),
{
    let whole = item + seq![0x3bu8] + parameters;
    lemma_position(item, 0x3b);
    lemma_position(whole, 0x3b);
    assert(whole[item.len() as int] == 0x3b);
    if position(whole, 0x3b) < item.len() {
        assert(whole[position(whole, 0x3b)] == item[position(whole, 0x3b)]);
    }
    assert(before(whole, 0x3b) =~= item);
    assert(before(item, 0x3b) =~= item);
}

/// One of the comma-separated items of one of the values is `item`.
pub open spec fn holds_item(values: Seq<Seq<u8>>, item: Seq<u8>) -> bool {
    exists|i: int|
        0 <= i < values.len() && #[trigger] split(values[i], 0x2c).contains(item)
}

/// More items never turn a yes into a no: where every item of the accept values occurs among others
/// that are all text, and the first leave the server free, so do the others.
pub proof fn law_more_accept_items_do_no_harm(values: Seq<Seq<u8>>, other: Seq<Seq<u8>>)
    requires
        all_text(other),
        forall|item: Seq<u8>| #[trigger] holds_item(values, item) ==> holds_item(other, item),
        takes_both(values),
    ensures
        takes_both(other),
{
    if exists|i: int| 0 <= i < values.len() && #[trigger] takes_anything_at(values, i) {
        let i = choose|i: int| 0 <= i < values.len() && #[trigger] takes_anything_at(values, i);
        assert(offers(values[i], "*/*"@));
        lemma_offer_is_kept(values, other, "*/*"@);
    } else {
        lemma_offer_is_kept(values, other, "application/json"@);
        lemma_offer_is_kept(values, other, "application/*"@);
        lemma_offer_is_kept(values, other, "text/event-stream"@);
        lemma_offer_is_kept(values, other, "text/*"@);
    }
    lemma_takes_both_of_text(other);
}

/// It does not matter how the accept items are ordered, nor how they are spread over fields, where
/// all of them are text.
pub proof fn law_accept_spread_does_not_matter(values: Seq<Seq<u8>>, other: Seq<Seq<u8>>)
    requires
        all_text(values),
        all_text(other),
        forall|item: Seq<u8>| #[trigger] holds_item(values, item) <==> holds_item(other, item),
    ensures
        takes_both(values) == takes_both(other),
{
    if takes_both(values) {
        law_more_accept_items_do_no_harm(values, other);
    }
    if takes_both(other) {
        assert forall|item: Seq<u8>| #[trigger] holds_item(other, item) implies holds_item(
            values,
            item,
        ) by {
            assert(holds_item(values, item) <==> holds_item(other, item));
        }
        law_more_accept_items_do_no_harm(other, values);
    }
}

/// The order of the accept values does not matter, where all are text.
pub proof fn law_accept_order_does_not_matter(values: Seq<Seq<u8>>, other: Seq<Seq<u8>>)
    requires
        all_text(values),
        forall|value: Seq<u8>| values.contains(value) <==> other.contains(value),
    ensures
        takes_both(values) == takes_both(other),
{
    assert(all_text(other)) by {
        assert forall|i: int| 0 <= i < other.len() implies is_text(#[trigger] other[i]) by {
            assert(other.contains(other[i]));
            let j = choose|j: int| 0 <= j < values.len() && values[j] == other[i];
            assert(is_text(values[j]));
        }
    }
    assert forall|item: Seq<u8>| #[trigger] holds_item(values, item) <==> holds_item(other, item) by {
        lemma_item_is_kept(values, other, item);
        lemma_item_is_kept(other, values, item);
    }
    law_accept_spread_does_not_matter(values, other);
}

proof fn lemma_item_is_kept(values: Seq<Seq<u8>>, other: Seq<Seq<u8>>, item: Seq<u8>)
    requires
        forall|value: Seq<u8>| values.contains(value) <==> other.contains(value),
    ensures
        holds_item(values, item) ==> holds_item(other, item),
{
    if holds_item(values, item) {
        let i = choose|i: int|
            0 <= i < values.len() && #[trigger] split(values[i], 0x2c).contains(item);
        assert(values.contains(values[i]));
        assert(other.contains(values[i]));
        let j = choose|j: int| 0 <= j < other.len() && other[j] == values[i];
        assert(split(other[j], 0x2c).contains(item));
    }
}

proof fn lemma_takes_both_of_text(values: Seq<Seq<u8>>)
    requires
        all_text(values),
    ensures
        takes_both(values) == (some_offers(values, "*/*"@) || {
            &&& some_offers(values, "application/json"@) || some_offers(values, "application/*"@)
            &&& some_offers(values, "text/event-stream"@) || some_offers(values, "text/*"@)
        }),
{
    if some_offers(values, "*/*"@) {
        let i = choose|i: int| 0 <= i < values.len() && offers(#[trigger] values[i], "*/*"@);
        assert(takes_anything_at(values, i));
    }
}

proof fn lemma_offer_is_kept(values: Seq<Seq<u8>>, other: Seq<Seq<u8>>, name: Seq<char>)
    requires
        forall|item: Seq<u8>| #[trigger] holds_item(values, item) ==> holds_item(other, item),
    ensures
        some_offers(values, name) ==> some_offers(other, name),
{
    if some_offers(values, name) {
        let i = choose|i: int| 0 <= i < values.len() && offers(#[trigger] values[i], name);
        let k = choose|k: int|
            0 <= k < split(values[i], 0x2c).len() && names(
                #[trigger] split(values[i], 0x2c)[k],
                name,
            );
        let item = split(values[i], 0x2c)[k];
        assert(split(values[i], 0x2c).contains(item));
        assert(holds_item(values, item));
        let j = choose|j: int|
            0 <= j < other.len() && #[trigger] split(other[j], 0x2c).contains(item);
        let m = choose|m: int|
            0 <= m < split(other[j], 0x2c).len() && split(other[j], 0x2c)[m] == item;
        assert(names(split(other[j], 0x2c)[m], name));
        assert(offers(other[j], name));
    }
}

/// An item names a media type exactly where the media type, in any case, is what stands before the
/// first semicolon once the blanks around it are taken away.
pub proof fn law_media_type_is_read_from_the_text(
    left: Seq<u8>,
    core: Seq<u8>,
    right: Seq<u8>,
    parameters: Option<Seq<u8>>,
    name: Seq<char>,
)
    requires
        forall|i: int| 0 <= i < left.len() ==> left[i] == 0x20 || left[i] == 0x09,
        forall|i: int| 0 <= i < right.len() ==> right[i] == 0x20 || right[i] == 0x09,
        core.len() > 0 ==> core[0] != 0x20 && core[0] != 0x09,
        core.len() > 0 ==> core.last() != 0x20 && core.last() != 0x09,
        forall|i: int| 0 <= i < core.len() ==> core[i] != 0x3b,
    ensures
        ({
            let item = match parameters {
                Some(parameters) => left + core + right + seq![0x3bu8] + parameters,
                None => left + core + right,
            };
            names(item, name) <==> core.len() == name.len() && forall|i: int|
                0 <= i < core.len() ==> {
                    ||| #[trigger] core[i] == name[i] as u8
                    ||| 0x41 <= core[i] <= 0x5a && name[i] as u8 == core[i] + 0x20
                    ||| 0x61 <= core[i] <= 0x7a && core[i] == (name[i] as u8) + 0x20
                }
        }),
{
    let plain = left + core + right;
    assert forall|i: int| 0 <= i < plain.len() implies plain[i] != 0x3b by {
        if i < left.len() {
            assert(plain[i] == left[i]);
        } else if i < left.len() + core.len() {
            assert(plain[i] == core[i - left.len()]);
        } else {
            assert(plain[i] == right[i - left.len() - core.len()]);
        }
    }
    let rest = match parameters {
        Some(parameters) => parameters,
        None => Seq::empty(),
    };
    law_cut_at_the_first_occurrence(plain, rest, 0x3b);
    law_blanks_at_the_ends_are_trimmed(left, core, right);
    law_case_is_all_that_is_ignored(core, ascii(name));
    assert forall|i: int| 0 <= i < name.len() implies #[trigger] ascii(name)[i] == name[i] as u8 by {}
    let item = match parameters {
        Some(parameters) => left + core + right + seq![0x3bu8] + parameters,
        None => left + core + right,
    };
    assert(media_type(item) == core);
    if names(item, name) {
        assert forall|i: int| 0 <= i < core.len() implies {
            ||| #[trigger] core[i] == name[i] as u8
            ||| 0x41 <= core[i] <= 0x5a && name[i] as u8 == core[i] + 0x20
            ||| 0x61 <= core[i] <= 0x7a && core[i] == (name[i] as u8) + 0x20
        } by {
            assert(ascii(name)[i] == name[i] as u8);
        }
    }
}

/// A body is declared as JSON exactly where the one content type is text and names that type; one
/// that is not declared is not JSON.
pub proof fn law_json_is_declared_by_its_name(value: Seq<u8>)
    ensures
        !is_json(None),
        is_json(Some(value)) <==> {
            &&& names(value, "application/json"@)
            &&& forall|i: int|
                0 <= i < value.len() ==> 0x20 <= #[trigger] value[i] && value[i] < 0x7f || value[i]
                    == 0x09
        },
{
    law_text_is_printable(value);
}

/// A body is taken as it is exactly where each declared encoding spells the identity, in any case
/// and with nothing around it; where none is declared, it is.
pub proof fn law_only_the_identity_is_no_encoding(values: Seq<Seq<u8>>)
    ensures
        !is_encoded(values) <==> forall|i: int|
            0 <= i < values.len() ==> (#[trigger] values[i]).len() == "identity"@.len() && forall|j: int|
                0 <= j < values[i].len() ==> {
                    ||| #[trigger] values[i][j] == "identity"@[j] as u8
                    ||| 0x41 <= values[i][j] <= 0x5a && "identity"@[j] as u8 == values[i][j] + 0x20
                },
{
    reveal_strlit("identity");
    let name = "identity"@;
    assert forall|i: int| 0 <= i < values.len() implies ((is_text(#[trigger] values[i])
        && same_ignoring_case(values[i], ascii(name))) <==> (values[i].len() == name.len()
        && forall|j: int|
        0 <= j < values[i].len() ==> {
            ||| #[trigger] values[i][j] == name[j] as u8
            ||| 0x41 <= values[i][j] <= 0x5a && name[j] as u8 == values[i][j] + 0x20
        })) by {
        let value = values[i];
        law_case_is_all_that_is_ignored(value, ascii(name));
        law_text_is_printable(value);
        assert forall|j: int| 0 <= j < name.len() implies #[trigger] ascii(name)[j] == name[j] as u8
            && 0x61 <= name[j] as u8 <= 0x7a by {}
        if value.len() == name.len() && (forall|j: int|
            0 <= j < value.len() ==> {
                ||| #[trigger] value[j] == name[j] as u8
                ||| 0x41 <= value[j] <= 0x5a && name[j] as u8 == value[j] + 0x20
            }) {
            assert forall|j: int| 0 <= j < value.len() implies {
                ||| #[trigger] value[j] == ascii(name)[j]
                ||| 0x41 <= value[j] <= 0x5a && ascii(name)[j] == value[j] + 0x20
                ||| 0x61 <= value[j] <= 0x7a && value[j] == ascii(name)[j] + 0x20
            } by {
                assert(ascii(name)[j] == name[j] as u8);
            }
            assert forall|j: int| 0 <= j < value.len() implies 0x20 <= #[trigger] value[j]
                && value[j] < 0x7f || value[j] == 0x09 by {
                assert(ascii(name)[j] == name[j] as u8);
            }
        }
        if same_ignoring_case(value, ascii(name)) {
            assert forall|j: int| 0 <= j < value.len() implies {
                ||| #[trigger] value[j] == name[j] as u8
                ||| 0x41 <= value[j] <= 0x5a && name[j] as u8 == value[j] + 0x20
            } by {
                assert(ascii(name)[j] == name[j] as u8);
            }
        }
    }
}

/// Where every accept value is text, the server is free to choose exactly where some item takes
/// anything, or where some item takes JSON and some item takes event streams.
pub proof fn law_accept_is_decided_by_its_items(values: Seq<Seq<u8>>)
    requires
        forall|i: int, j: int|
            0 <= i < values.len() && 0 <= j < values[i].len() ==> 0x20 <= #[trigger] values[i][j]
                && values[i][j] < 0x7f || values[i][j] == 0x09,
    ensures
        takes_both(values) <==> {
            ||| exists|i: int, k: int|
                0 <= i < values.len() && 0 <= k < split(values[i], 0x2c).len() && names(
                    #[trigger] split(values[i], 0x2c)[k],
                    "*/*"@,
                )
            ||| {
                &&& exists|i: int, k: int|
                    0 <= i < values.len() && 0 <= k < split(values[i], 0x2c).len() && (names(
                        #[trigger] split(values[i], 0x2c)[k],
                        "application/json"@,
                    ) || names(split(values[i], 0x2c)[k], "application/*"@))
                &&& exists|i: int, k: int|
                    0 <= i < values.len() && 0 <= k < split(values[i], 0x2c).len() && (names(
                        #[trigger] split(values[i], 0x2c)[k],
                        "text/event-stream"@,
                    ) || names(split(values[i], 0x2c)[k], "text/*"@))
            }
        },
{
    assert forall|i: int| 0 <= i < values.len() implies is_text(#[trigger] values[i]) by {
        law_text_is_printable(values[i]);
        assert forall|j: int| 0 <= j < values[i].len() implies 0x20 <= #[trigger] values[i][j]
            && values[i][j] < 0x7f || values[i][j] == 0x09 by {}
    }
    lemma_takes_both_of_text(values);
    lemma_some_offers_is_some_item(values, "*/*"@);
    lemma_some_offers_is_some_item(values, "application/json"@);
    lemma_some_offers_is_some_item(values, "application/*"@);
    lemma_some_offers_is_some_item(values, "text/event-stream"@);
    lemma_some_offers_is_some_item(values, "text/*"@);
}

proof fn lemma_some_offers_is_some_item(values: Seq<Seq<u8>>, name: Seq<char>)
    ensures
        some_offers(values, name) <==> exists|i: int, k: int|
            0 <= i < values.len() && 0 <= k < split(values[i], 0x2c).len() && names(
                #[trigger] split(values[i], 0x2c)[k],
                name,
            ),
{
    if some_offers(values, name) {
        let i = choose|i: int| 0 <= i < values.len() && offers(#[trigger] values[i], name);
        let k = choose|k: int|
            0 <= k < split(values[i], 0x2c).len() && names(
                #[trigger] split(values[i], 0x2c)[k],
                name,
            );
        assert(names(split(values[i], 0x2c)[k], name));
    }
    if exists|i: int, k: int|
        0 <= i < values.len() && 0 <= k < split(values[i], 0x2c).len() && names(
            #[trigger] split(values[i], 0x2c)[k],
            name,
        ) {
        let (i, k) = choose|i: int, k: int|
            0 <= i < values.len() && 0 <= k < split(values[i], 0x2c).len() && names(
                #[trigger] split(values[i], 0x2c)[k],
                name,
            );
        assert(offers(values[i], name));
    }
}

/// From the first accept value on that is not text, nothing counts any more: only an item before it
/// that takes anything leaves the server free.
pub proof fn law_nothing_counts_after_a_value_that_is_no_text(
    values: Seq<Seq<u8>>,
    bad: int,
    at: int,
)
    requires
        0 <= bad < values.len(),
        0 <= at < values[bad].len(),
        !(0x20 <= values[bad][at] && values[bad][at] < 0x7f || values[bad][at] == 0x09),
        forall|i: int, j: int|
            0 <= i < bad && 0 <= j < values[i].len() ==> 0x20 <= #[trigger] values[i][j]
                && values[i][j] < 0x7f || values[i][j] == 0x09,
    ensures
        takes_both(values) <==> exists|i: int, k: int|
            0 <= i < bad && 0 <= k < split(values[i], 0x2c).len() && names(
                #[trigger] split(values[i], 0x2c)[k],
                "*/*"@,
            ),
{
    law_text_is_printable(values[bad]);
    assert(!is_text(values[bad]));
    assert forall|i: int| 0 <= i < bad implies is_text(#[trigger] values[i]) by {
        law_text_is_printable(values[i]);
        assert forall|j: int| 0 <= j < values[i].len() implies 0x20 <= #[trigger] values[i][j]
            && values[i][j] < 0x7f || values[i][j] == 0x09 by {}
    }
    if takes_both(values) {
        let i = choose|i: int| 0 <= i < values.len() && #[trigger] takes_anything_at(values, i);
        if i >= bad {
            assert(values.take(i + 1)[bad] == values[bad]);
        }
        let k = choose|k: int|
            0 <= k < split(values[i], 0x2c).len() && names(
                #[trigger] split(values[i], 0x2c)[k],
                "*/*"@,
            );
        assert(names(split(values[i], 0x2c)[k], "*/*"@));
    }
    if exists|i: int, k: int|
        0 <= i < bad && 0 <= k < split(values[i], 0x2c).len() && names(
            #[trigger] split(values[i], 0x2c)[k],
            "*/*"@,
        ) {
        let (i, k) = choose|i: int, k: int|
            0 <= i < bad && 0 <= k < split(values[i], 0x2c).len() && names(
                #[trigger] split(values[i], 0x2c)[k],
                "*/*"@,
            );
        assert(offers(values[i], "*/*"@));
        assert forall|j: int| 0 <= j < i + 1 implies is_text(#[trigger] values.take(i + 1)[j]) by {
            assert(values.take(i + 1)[j] == values[j]);
        }
        assert(takes_anything_at(values, i));
    }
}

} // verus!
