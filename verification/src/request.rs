//! Which requests are let through to the endpoint, decided from their heads.

use crate::address::{
    authority, authority_text, law_address_is_loopback_and_port, origin, origin_text,
};
use crate::auth::{
    authorization_matches, law_authorization_is_scheme_space_token, presents, TOKEN_TEXT_LEN,
};
use crate::headers::{
    all_values, bytes_in, bytes_of, header_contents, optional_single_header, single, single_header,
    values_under, ACCEPT, AUTHORIZATION, CONTENT_ENCODING, CONTENT_TYPE, HOST, ORIGIN,
};
use crate::media::{
    accept_takes_both, content_type_is_json, encoding_is_unsupported, is_encoded, is_json,
    takes_both,
};
use crate::reply::{
    bare_reply, empty_reply, empty_response, has_field, law_no_session_is_begun,
    response_with_field, Reply, ReplyBodyView, ReplyView, FORBIDDEN, METHOD_NOT_ALLOWED, NOT_ACCEPTABLE,
    SERVICE_UNAVAILABLE, UNAUTHORIZED, UNSUPPORTED_MEDIA_TYPE,
};
use crate::text::{
    ascii, ascii_bytes, decimal, equal, law_ascii_keeps_characters, lemma_decimal_is_ascii,
    lemma_decimal_is_injective,
};
use axum::http::HeaderMap;
use vstd::prelude::*;
use vstd::slice::slice_to_vec;

verus! {

/// What the endpoint reads of a request's head.
pub struct RequestHead {
    pub method: Vec<u8>,
    /// The host field, where it is given exactly once.
    pub host: Option<Vec<u8>>,
    /// The origin field: `Some(None)` where it is repeated.
    pub origin: Option<Option<Vec<u8>>>,
    /// The authorization field, where it is given exactly once.
    pub authorization: Option<Vec<u8>>,
    pub accept: Vec<Vec<u8>>,
    /// The content type, where it is given exactly once.
    pub content_type: Option<Vec<u8>>,
    pub content_encoding: Vec<Vec<u8>>,
}

pub struct HeadView {
    pub method: Seq<u8>,
    pub host: Option<Seq<u8>>,
    pub origin: Option<Option<Seq<u8>>>,
    pub authorization: Option<Seq<u8>>,
    pub accept: Seq<Seq<u8>>,
    pub content_type: Option<Seq<u8>>,
    pub content_encoding: Seq<Seq<u8>>,
}

impl View for RequestHead {
    type V = HeadView;

    open spec fn view(&self) -> HeadView {
        HeadView {
            method: self.method@,
            host: bytes_in(self.host),
            origin: match self.origin {
                Some(origin) => Some(bytes_in(origin)),
                None => None,
            },
            authorization: bytes_in(self.authorization),
            accept: bytes_of(self.accept@),
            content_type: bytes_in(self.content_type),
            content_encoding: bytes_of(self.content_encoding@),
        }
    }
}

/// The head of a request with the given method and header fields.
pub open spec fn head_of(method: Seq<u8>, contents: Map<Seq<char>, Seq<Seq<u8>>>) -> HeadView {
    HeadView {
        method,
        host: single(values_under(contents, HOST@)),
        origin: if values_under(contents, ORIGIN@).len() == 0 {
            None
        } else {
            Some(single(values_under(contents, ORIGIN@)))
        },
        authorization: single(values_under(contents, AUTHORIZATION@)),
        accept: values_under(contents, ACCEPT@),
        content_type: single(values_under(contents, CONTENT_TYPE@)),
        content_encoding: values_under(contents, CONTENT_ENCODING@),
    }
}

/// The request names this server as its host.
pub open spec fn names_host(port: u16, head: HeadView) -> bool {
    head.host == Some(ascii(authority(port)))
}

/// The request comes from no page, or from a page of this server.
pub open spec fn has_own_origin(port: u16, head: HeadView) -> bool {
    head.origin is None || head.origin == Some(Some(ascii(origin(port))))
}

/// The response to a request that lacks the token.
pub open spec fn challenge() -> ReplyView {
    bare_reply(UNAUTHORIZED, "www-authenticate"@, "Bearer"@)
}

/// How the boundary rejects a request, if it does: host and origin first, then the token.
pub open spec fn boundary_rejection(port: u16, token: Seq<u8>, head: HeadView) -> Option<
    ReplyView,
> {
    if !names_host(port, head) || !has_own_origin(port, head) {
        Some(empty_reply(FORBIDDEN))
    } else if !presents(head.authorization, token) {
        Some(challenge())
    } else {
        None
    }
}

/// How a request is rejected before its body is read, if it is.
pub open spec fn head_rejection(
    port: u16,
    token: Seq<u8>,
    shutting_down: bool,
    head: HeadView,
) -> Option<ReplyView> {
    if boundary_rejection(port, token, head) is Some {
        boundary_rejection(port, token, head)
    } else if head.method != ascii("POST"@) {
        Some(bare_reply(METHOD_NOT_ALLOWED, "allow"@, "POST"@))
    } else if head.accept.len() > 0 && !takes_both(head.accept) {
        Some(empty_reply(NOT_ACCEPTABLE))
    } else if shutting_down {
        Some(empty_reply(SERVICE_UNAVAILABLE))
    } else if !is_json(head.content_type) || is_encoded(head.content_encoding) {
        Some(empty_reply(UNSUPPORTED_MEDIA_TYPE))
    } else {
        None
    }
}

/// The view of a response that may be absent.
pub open spec fn reply_in(reply: Option<Reply>) -> Option<ReplyView> {
    match reply {
        Some(reply) => Some(reply@),
        None => None,
    }
}

impl RequestHead {
    /// Reads the head of a request with the given method and header fields.
    pub fn read(method: &[u8], headers: &HeaderMap) -> (head: RequestHead)
        ensures
            head@ == head_of(method@, header_contents(*headers)),
    {
        proof {
            reveal_strlit("accept");
            reveal_strlit("authorization");
            reveal_strlit("content-encoding");
            reveal_strlit("content-type");
            reveal_strlit("host");
            reveal_strlit("origin");
        }
        RequestHead {
            method: slice_to_vec(method),
            host: single_header(headers, HOST),
            origin: optional_single_header(headers, ORIGIN),
            authorization: single_header(headers, AUTHORIZATION),
            accept: all_values(headers, ACCEPT),
            content_type: single_header(headers, CONTENT_TYPE),
            content_encoding: all_values(headers, CONTENT_ENCODING),
        }
    }
}

fn value_is(value: &Option<Vec<u8>>, expected: &[u8]) -> (same: bool)
    ensures
        same == (bytes_in(*value) == Some(expected@)),
{
    match value {
        Some(value) => equal(value.as_slice(), expected),
        None => false,
    }
}

/// How the boundary rejects a request, if it does.
pub fn validate_request_boundary(
    port: u16,
    token: &[u8; TOKEN_TEXT_LEN],
    head: &RequestHead,
) -> (rejection: Option<Reply>)
    ensures
        reply_in(rejection) == boundary_rejection(port, token@, head@),
{
    let expected_host = authority_text(port);
    if !value_is(&head.host, ascii_bytes(expected_host.as_str())) {
        return Some(empty_response(FORBIDDEN));
    }
    if let Some(origin) = &head.origin {
        let expected_origin = origin_text(port);
        if !value_is(origin, ascii_bytes(expected_origin.as_str())) {
            return Some(empty_response(FORBIDDEN));
        }
    }
    if !authorization_matches(&head.authorization, token) {
        return Some(response_with_field(UNAUTHORIZED, "www-authenticate", "Bearer"));
    }
    None
}

/// How a request is rejected before its body is read, if it is.
pub fn check_head(
    port: u16,
    token: &[u8; TOKEN_TEXT_LEN],
    shutting_down: bool,
    head: &RequestHead,
) -> (rejection: Option<Reply>)
    ensures
        reply_in(rejection) == head_rejection(port, token@, shutting_down, head@),
{
    proof {
        reveal_strlit("POST");
    }
    if let Some(rejection) = validate_request_boundary(port, token, head) {
        return Some(rejection);
    }
    if !equal(head.method.as_slice(), ascii_bytes("POST")) {
        return Some(response_with_field(METHOD_NOT_ALLOWED, "allow", "POST"));
    }
    if head.accept.len() > 0 && !accept_takes_both(&head.accept) {
        return Some(empty_response(NOT_ACCEPTABLE));
    }
    if shutting_down {
        return Some(empty_response(SERVICE_UNAVAILABLE));
    }
    if !content_type_is_json(&head.content_type) {
        return Some(empty_response(UNSUPPORTED_MEDIA_TYPE));
    }
    if encoding_is_unsupported(&head.content_encoding) {
        return Some(empty_response(UNSUPPORTED_MEDIA_TYPE));
    }
    None
}

/// Host and origin come first: a request that names another host, or comes from a foreign page, is
/// forbidden, whatever its method, its token and the rest of its head.
pub proof fn law_host_and_origin_come_first(
    port: u16,
    token: Seq<u8>,
    shutting_down: bool,
    head: HeadView,
)
    requires
        !names_host(port, head) || !has_own_origin(port, head),
    ensures
        head_rejection(port, token, shutting_down, head) == Some(empty_reply(FORBIDDEN)),
{
}

/// A host field that is absent or repeated names no host.
pub proof fn law_host_is_given_once(
    port: u16,
    token: Seq<u8>,
    shutting_down: bool,
    method: Seq<u8>,
    contents: Map<Seq<char>, Seq<Seq<u8>>>,
)
    requires
        values_under(contents, HOST@).len() != 1,
    ensures
        head_rejection(port, token, shutting_down, head_of(method, contents)) == Some(
            empty_reply(FORBIDDEN),
        ),
{
}

/// A request names at most one port: one that is meant for the server on another port of the same
/// machine is not taken for one's own.
pub proof fn law_host_names_one_port(port: u16, other: u16, head: HeadView)
    requires
        names_host(port, head),
        names_host(other, head),
    ensures
        port == other,
{
    let prefix = "127.0.0.1:"@;
    let (left, right) = (decimal(port as nat), decimal(other as nat));
    lemma_decimal_is_ascii(port as nat);
    lemma_decimal_is_ascii(other as nat);
    assert(ascii(authority(port)).len() == ascii(authority(other)).len());
    assert forall|i: int| 0 <= i < left.len() implies left[i] == right[i] by {
        assert(ascii(authority(port))[prefix.len() + i] == left[i] as u8);
        assert(ascii(authority(other))[prefix.len() + i] == right[i] as u8);
    }
    assert(left =~= right);
    lemma_decimal_is_injective(port as nat, other as nat);
}

/// The token comes before the method: at the right host, every request that does not present the
/// token gets one and the same challenge, whatever it presents instead and whatever it asks for.
pub proof fn law_token_comes_before_method(
    port: u16,
    token: Seq<u8>,
    shutting_down: bool,
    head: HeadView,
)
    requires
        names_host(port, head),
        has_own_origin(port, head),
        !presents(head.authorization, token),
    ensures
        head_rejection(port, token, shutting_down, head) == Some(challenge()),
{
}

/// The method comes next: an authenticated request by another method is told to post.
pub proof fn law_method_comes_after_token(
    port: u16,
    token: Seq<u8>,
    shutting_down: bool,
    head: HeadView,
)
    requires
        names_host(port, head),
        has_own_origin(port, head),
        presents(head.authorization, token),
        head.method != ascii("POST"@),
    ensures
        head_rejection(port, token, shutting_down, head) == Some(
            bare_reply(METHOD_NOT_ALLOWED, "allow"@, "POST"@),
        ),
{
}

/// A request is let through exactly where every check passes.
pub proof fn law_let_through(port: u16, token: Seq<u8>, shutting_down: bool, head: HeadView)
    ensures
        head_rejection(port, token, shutting_down, head) is None <==> {
            &&& names_host(port, head)
            &&& has_own_origin(port, head)
            &&& presents(head.authorization, token)
            &&& head.method == ascii("POST"@)
            &&& head.accept.len() == 0 || takes_both(head.accept)
            &&& !shutting_down
            &&& is_json(head.content_type)
            &&& !is_encoded(head.content_encoding)
        },
{
}

/// No rejection begins a session.
pub proof fn law_no_rejection_begins_a_session(
    port: u16,
    token: Seq<u8>,
    shutting_down: bool,
    head: HeadView,
)
    ensures
        head_rejection(port, token, shutting_down, head) matches Some(reply) ==> !has_field(
            reply,
            "mcp-session-id"@,
        ),
{
    if let Some(reply) = head_rejection(port, token, shutting_down, head) {
        law_no_session_is_begun(reply.status, arbitrary());
    }
}

/// A server that is shutting down lets no request through.
pub proof fn law_nothing_passes_after_shutdown(port: u16, token: Seq<u8>, head: HeadView)
    ensures
        head_rejection(port, token, true, head) is Some,
{
}

/// The host and the origin are judged on their texts: on any port, the one host is the loopback
/// address, a colon and the port in decimal, byte for byte, and the one origin, where there is any,
/// is the same behind the scheme.
pub proof fn law_host_and_origin_are_judged_on_their_texts(port: u16, head: HeadView)
    ensures
        names_host(port, head) <==> (head.host matches Some(host) && host.len()
            == 10 + decimal(port as nat).len() && forall|i: int|
            0 <= i < host.len() ==> #[trigger] host[i] == ("127.0.0.1:"@ + decimal(
                port as nat,
            ))[i] as u8),
        has_own_origin(port, head) <==> match head.origin {
            None => true,
            Some(None) => false,
            Some(Some(origin)) => origin.len() == 17 + decimal(port as nat).len() && forall|i: int|
                0 <= i < origin.len() ==> #[trigger] origin[i] == ("http://127.0.0.1:"@ + decimal(
                    port as nat,
                ))[i] as u8,
        },
{
    reveal_strlit("127.0.0.1:");
    reveal_strlit("http://127.0.0.1:");
    assert("127.0.0.1:"@.len() == 10);
    assert("http://127.0.0.1:"@.len() == 17);
    law_address_is_loopback_and_port(port);
    let host_text = "127.0.0.1:"@ + decimal(port as nat);
    let origin_text = "http://127.0.0.1:"@ + decimal(port as nat);
    law_ascii_keeps_characters(host_text);
    law_ascii_keeps_characters(origin_text);
    if let Some(host) = head.host {
        if host.len() == host_text.len() && forall|i: int|
            0 <= i < host.len() ==> #[trigger] host[i] == host_text[i] as u8 {
            assert(host =~= ascii(host_text));
        }
        if host == ascii(host_text) {
            assert forall|i: int| 0 <= i < host.len() implies #[trigger] host[i]
                == host_text[i] as u8 by {}
        }
    }
    if let Some(Some(origin)) = head.origin {
        if origin.len() == origin_text.len() && forall|i: int|
            0 <= i < origin.len() ==> #[trigger] origin[i] == origin_text[i] as u8 {
            assert(origin =~= ascii(origin_text));
        }
        if origin == ascii(origin_text) {
            assert forall|i: int| 0 <= i < origin.len() implies #[trigger] origin[i]
                == origin_text[i] as u8 by {}
        }
    }
}

/// On any port, a request passes the boundary that names the loopback address and that port as its
/// host, comes from no page, and presents the token behind the bearer scheme, whatever the token's
/// text; and where it posts JSON without an encoding and takes either kind of answer, it is let
/// through until the shutdown.
pub proof fn law_own_request_is_let_through(
    port: u16,
    token: Seq<u8>,
    head: HeadView,
    host: Seq<u8>,
)
    requires
        head.host == Some(host),
        host.len() == 10 + decimal(port as nat).len(),
        forall|i: int|
            0 <= i < host.len() ==> #[trigger] host[i] == ("127.0.0.1:"@ + decimal(
                port as nat,
            ))[i] as u8,
        head.origin is None,
        head.authorization == Some(seq![0x42u8, 0x65, 0x61, 0x72, 0x65, 0x72, 0x20] + token),
        forall|i: int|
            0 <= i < token.len() ==> 0x20 <= #[trigger] token[i] && token[i] < 0x7f || token[i]
                == 0x09,
    ensures
        boundary_rejection(port, token, head) is None,
        head.method == seq![0x50u8, 0x4f, 0x53, 0x54] && takes_both(head.accept) && is_json(
            head.content_type,
        ) && !is_encoded(head.content_encoding) ==> head_rejection(port, token, false, head) is None,
{
    law_host_and_origin_are_judged_on_their_texts(port, head);
    reveal_strlit("Bearer");
    reveal_strlit("POST");
    let scheme = seq![0x42u8, 0x65, 0x61, 0x72, 0x65, 0x72];
    assert(scheme + seq![0x20u8] + token =~= seq![0x42u8, 0x65, 0x61, 0x72, 0x65, 0x72, 0x20]
        + token);
    law_authorization_is_scheme_space_token(scheme, token, token);
    assert(ascii("POST"@) =~= seq![0x50u8, 0x4f, 0x53, 0x54]);
}

/// Requests are judged in one order, and each rejection is one fixed response: forbidden for another
/// host or a foreign page; the challenge for want of the token; then, and only then, the method, the
/// answers that are taken, the shutdown, and the body's type and encoding. What passes all is let
/// through.
pub proof fn law_order_of_rejections(
    port: u16,
    token: Seq<u8>,
    shutting_down: bool,
    head: HeadView,
)
    ensures
        ({
            let own = head.host == Some(ascii("127.0.0.1:"@ + decimal(port as nat)))
                && (head.origin is None || head.origin == Some(
                Some(ascii("http://127.0.0.1:"@ + decimal(port as nat))),
            ));
            let known = own && presents(head.authorization, token);
            let posted = known && head.method == seq![0x50u8, 0x4f, 0x53, 0x54];
            let taken = posted && (head.accept.len() == 0 || takes_both(head.accept));
            let bare = taken && !shutting_down;
            let rejection = head_rejection(port, token, shutting_down, head);
            let none = Seq::<(Seq<char>, Seq<char>)>::empty();
            let body = ReplyBodyView::Empty;
            &&& !own ==> rejection == Some((ReplyView { status: 403, fields: none, body }))
            &&& own && !known ==> rejection == Some(
                (ReplyView { status: 401, fields: seq![("www-authenticate"@, "Bearer"@)], body }),
            )
            &&& !known ==> boundary_rejection(port, token, head) == rejection
            &&& known ==> boundary_rejection(port, token, head) is None
            &&& known && !posted ==> rejection == Some(
                (ReplyView { status: 405, fields: seq![("allow"@, "POST"@)], body }),
            )
            &&& posted && !taken ==> rejection == Some(
                (ReplyView { status: 406, fields: none, body }),
            )
            &&& taken && !bare ==> rejection == Some(
                (ReplyView { status: 503, fields: none, body }),
            )
            &&& bare && (!is_json(head.content_type) || is_encoded(head.content_encoding))
                ==> rejection == Some((ReplyView { status: 415, fields: none, body }))
            &&& bare && is_json(head.content_type) && !is_encoded(head.content_encoding)
                ==> rejection is None
        }),
{
    reveal_strlit("POST");
    law_address_is_loopback_and_port(port);
    assert(ascii("POST"@) =~= seq![0x50u8, 0x4f, 0x53, 0x54]);
}

/// Every part of a head is read from the field of its own name: the host, the authorization and the
/// content type where they are given once, the origin where it is given at all, and all values of
/// the others.
pub proof fn law_head_is_read_from_the_fields(
    method: Seq<u8>,
    contents: Map<Seq<char>, Seq<Seq<u8>>>,
)
    ensures
        ({
            let head = head_of(method, contents);
            let values = |name: Seq<char>| values_under(contents, name);
            &&& head.method == method
            &&& head.host == single(values("host"@))
            &&& head.authorization == single(values("authorization"@))
            &&& head.content_type == single(values("content-type"@))
            &&& head.accept == values("accept"@)
            &&& head.content_encoding == values("content-encoding"@)
            &&& values("origin"@).len() == 0 ==> head.origin is None
            &&& values("origin"@).len() > 0 ==> head.origin == Some(single(values("origin"@)))
        }),
{
}

/// Nothing of a head is lost in its view.
pub proof fn law_heads_are_shown_as_they_are(head: RequestHead, reply: Reply)
    ensures
        head@.method == head.method@,
        head.host matches Some(value) ==> head@.host == Some(value@),
        head.host is None ==> head@.host is None,
        head.origin matches Some(Some(value)) ==> head@.origin == Some(Some(value@)),
        head.origin matches Some(None) ==> head@.origin == Some(None::<Seq<u8>>),
        head.origin is None ==> head@.origin is None,
        head.authorization matches Some(value) ==> head@.authorization == Some(value@),
        head.authorization is None ==> head@.authorization is None,
        head.content_type matches Some(value) ==> head@.content_type == Some(value@),
        head.content_type is None ==> head@.content_type is None,
        head@.accept.len() == head.accept@.len(),
        forall|i: int|
            0 <= i < head.accept@.len() ==> #[trigger] head@.accept[i] == head.accept@[i]@,
        head@.content_encoding.len() == head.content_encoding@.len(),
        forall|i: int|
            0 <= i < head.content_encoding@.len() ==> #[trigger] head@.content_encoding[i]
                == head.content_encoding@[i]@,
        reply_in(Some(reply)) == Some(reply@),
        reply_in(None) is None,
{
}

} // verus!
