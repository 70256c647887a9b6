use axum::http::header::{
    ACCEPT, AUTHORIZATION, CONTENT_ENCODING, CONTENT_TYPE, HOST, ORIGIN,
};
use axum::http::{HeaderMap, HeaderValue};
use specmesh_server::address::{authority_text, origin_text, MCP_PATH};
use specmesh_server::auth::{authorization_matches, authorized, TOKEN_TEXT_LEN};
use specmesh_server::headers::{
    is_visible_text, optional_single_header, single_header, single_value,
};
use specmesh_server::media::{
    accept_takes_both, accepts_mcp_response, content_type_is_json, encoding_is_unsupported,
    has_unsupported_content_encoding, is_json_content_type,
};
use specmesh_server::reply::{not_found, Reply, ReplyBody};
use specmesh_server::request::{check_head, validate_request_boundary, RequestHead};
use specmesh_server::state::HttpState;
use specmesh_server::text::{
    ascii_bytes, decimal_text, equal, equal_ignoring_case, find, split_at_each, take_before, trim,
};

const TOKEN: &str = "AAAAAAAAAAAAAAAAAAAAAAAAAAAAAAAAAAAAAAAAAAA";
const PORT: u16 = 8765;

fn token() -> [u8; TOKEN_TEXT_LEN] {
    [b'A'; TOKEN_TEXT_LEN]
}

fn bearer(token: &str) -> HeaderValue {
    HeaderValue::from_str(&format!("Bearer {token}")).unwrap()
}

fn good_headers() -> HeaderMap {
    let mut headers = HeaderMap::new();
    headers.insert(HOST, HeaderValue::from_static("127.0.0.1:8765"));
    headers.insert(AUTHORIZATION, bearer(TOKEN));
    headers.insert(
        ACCEPT,
        HeaderValue::from_static("application/json, text/event-stream"),
    );
    headers.insert(CONTENT_TYPE, HeaderValue::from_static("application/json"));
    headers
}

fn check(method: &str, headers: &HeaderMap) -> Option<Reply> {
    HttpState::new(PORT, token()).check_request(method.as_bytes(), headers)
}

fn fields(reply: &Reply) -> Vec<(&'static str, &'static str)> {
    reply
        .fields
        .iter()
        .map(|field| (field.name, field.value))
        .collect()
}

fn assert_empty(reply: Option<Reply>, status: u16) {
    let reply = reply.unwrap();
    assert_eq!(reply.status, status);
    assert!(reply.fields.is_empty());
    assert!(matches!(reply.body, ReplyBody::Empty));
}

fn assert_challenge(reply: Option<Reply>) {
    let reply = reply.unwrap();
    assert_eq!(reply.status, 401);
    assert_eq!(fields(&reply), vec![("www-authenticate", "Bearer")]);
    assert!(matches!(reply.body, ReplyBody::Empty));
}

#[test]
fn bearer_comparison_has_one_failure_shape() {
    let token = [b'A'; TOKEN_TEXT_LEN];
    let mut headers = HeaderMap::new();
    assert!(!authorized(&headers, &token));
    headers.insert(AUTHORIZATION, HeaderValue::from_static("Bearer wrong"));
    assert!(!authorized(&headers, &token));
    headers.insert(
        AUTHORIZATION,
        HeaderValue::from_str(&format!("Bearer {}", "A".repeat(TOKEN_TEXT_LEN))).unwrap(),
    );
    assert!(authorized(&headers, &token));
}

#[test]
fn content_type_is_strictly_json() {
    let mut headers = HeaderMap::new();
    assert!(!is_json_content_type(&headers));
    headers.insert(CONTENT_TYPE, HeaderValue::from_static("text/plain"));
    assert!(!is_json_content_type(&headers));
    headers.insert(
        CONTENT_TYPE,
        HeaderValue::from_static("application/json; charset=utf-8"),
    );
    assert!(is_json_content_type(&headers));
}

#[test]
fn bearer_scheme_is_taken_in_any_case_and_the_token_as_it_is() {
    let token = token();
    let with = |value: String| authorization_matches(&Some(value.into_bytes()), &token);
    assert!(with(format!("Bearer {TOKEN}")));
    assert!(with(format!("bEARER {TOKEN}")));
    assert!(!with(format!("Basic {TOKEN}")));
    assert!(!with(format!("Bearer{TOKEN}")));
    assert!(!with(format!("Bearer  {TOKEN}")));
    assert!(!with(format!(" Bearer {TOKEN}")));
    assert!(!with(format!("Bearer {TOKEN} ")));
    assert!(!with(format!("Bearer {TOKEN}A")));
    assert!(!with(format!("Bearer {}", &TOKEN[1..])));
    assert!(!with(format!("Bearer {}", TOKEN.to_lowercase())));
    assert!(!with(String::from("Bearer ")));
    assert!(!with(String::new()));
    assert!(!authorization_matches(&None, &token));
}

#[test]
fn a_short_credential_is_not_completed_by_zero_bytes() {
    let zeros = [0u8; TOKEN_TEXT_LEN];
    assert!(!authorization_matches(&Some(b"Bearer ".to_vec()), &zeros));
    assert!(!authorization_matches(&Some(b"Bearer x".to_vec()), &zeros));
}

#[test]
fn authorization_is_given_once() {
    let mut headers = HeaderMap::new();
    headers.append(AUTHORIZATION, bearer(TOKEN));
    assert!(authorized(&headers, &token()));
    headers.append(AUTHORIZATION, bearer(TOKEN));
    assert!(!authorized(&headers, &token()));
}

#[test]
fn one_request_presents_one_token() {
    let value = Some(format!("Bearer {TOKEN}").into_bytes());
    let mut other = token();
    assert!(authorization_matches(&value, &other));
    other[42] = b'B';
    assert!(!authorization_matches(&value, &other));
}

#[test]
fn headers_are_read_by_name() {
    let mut headers = HeaderMap::new();
    assert!(single_header(&headers, "origin").is_none());
    assert!(optional_single_header(&headers, "origin").is_none());
    headers.append(ORIGIN, HeaderValue::from_static("null"));
    headers.append(HOST, HeaderValue::from_static("elsewhere"));
    assert_eq!(single_header(&headers, "origin"), Some(b"null".to_vec()));
    assert_eq!(
        optional_single_header(&headers, "origin"),
        Some(Some(b"null".to_vec()))
    );
    headers.append(ORIGIN, HeaderValue::from_static("null"));
    assert_eq!(single_header(&headers, "origin"), None);
    assert_eq!(optional_single_header(&headers, "origin"), Some(None));
    assert_eq!(single_header(&headers, "host"), Some(b"elsewhere".to_vec()));
}

#[test]
fn one_value_is_neither_none_nor_two() {
    assert_eq!(single_value(vec![]), None);
    assert_eq!(single_value(vec![b"a".to_vec()]), Some(b"a".to_vec()));
    assert_eq!(single_value(vec![b"a".to_vec(), b"a".to_vec()]), None);
}

#[test]
fn text_is_visible_ascii_with_spaces_and_tabs() {
    assert!(is_visible_text(b""));
    assert!(is_visible_text(b" \t~!"));
    assert!(!is_visible_text(&[0x7f]));
    assert!(!is_visible_text(&[0x80]));
    assert!(!is_visible_text(&[0x1f]));
}

#[test]
fn request_head_holds_every_field_that_is_read() {
    let mut headers = good_headers();
    headers.append(ACCEPT, HeaderValue::from_static("*/*"));
    headers.append(CONTENT_ENCODING, HeaderValue::from_static("identity"));
    let head = RequestHead::read(b"POST", &headers);
    assert_eq!(head.method, b"POST");
    assert_eq!(head.host, Some(b"127.0.0.1:8765".to_vec()));
    assert_eq!(head.origin, None);
    assert_eq!(head.authorization, Some(format!("Bearer {TOKEN}").into_bytes()));
    assert_eq!(
        head.accept,
        vec![
            b"application/json, text/event-stream".to_vec(),
            b"*/*".to_vec()
        ]
    );
    assert_eq!(head.content_type, Some(b"application/json".to_vec()));
    assert_eq!(head.content_encoding, vec![b"identity".to_vec()]);
}

#[test]
fn a_good_request_is_let_through() {
    assert!(check("POST", &good_headers()).is_none());
    let mut headers = good_headers();
    headers.insert(ORIGIN, HeaderValue::from_static("http://127.0.0.1:8765"));
    assert!(check("POST", &headers).is_none());
    headers.remove(ACCEPT);
    assert!(check("POST", &headers).is_none());
    headers.insert(CONTENT_ENCODING, HeaderValue::from_static("Identity"));
    assert!(check("POST", &headers).is_none());
}

#[test]
fn missing_or_wrong_host_is_forbidden_before_all_else() {
    let mut headers = good_headers();
    headers.remove(HOST);
    assert_empty(check("GET", &headers), 403);
    headers.insert(HOST, HeaderValue::from_static("localhost:8765"));
    assert_empty(check("POST", &headers), 403);
    headers.remove(AUTHORIZATION);
    assert_empty(check("GET", &headers), 403);
    headers.insert(HOST, HeaderValue::from_static("127.0.0.1:8766"));
    assert_empty(check("POST", &headers), 403);
    let mut repeated = good_headers();
    repeated.append(HOST, HeaderValue::from_static("127.0.0.1:8765"));
    assert_empty(check("POST", &repeated), 403);
}

#[test]
fn foreign_origin_is_forbidden_before_token_and_method() {
    let origins = [
        "null",
        "https://127.0.0.1",
        "http://localhost",
        "http://127.0.0.1:8766",
    ];
    for origin in origins {
        let mut headers = good_headers();
        headers.insert(ORIGIN, HeaderValue::from_static(origin));
        assert_empty(check("POST", &headers), 403);
        headers.remove(AUTHORIZATION);
        assert_empty(check("GET", &headers), 403);
    }
    let mut repeated = good_headers();
    repeated.append(ORIGIN, HeaderValue::from_static("http://127.0.0.1:8765"));
    repeated.append(ORIGIN, HeaderValue::from_static("http://127.0.0.1:8765"));
    assert_empty(check("POST", &repeated), 403);
}

#[test]
fn missing_and_wrong_token_get_the_same_challenge_by_any_method() {
    let mut headers = good_headers();
    headers.remove(AUTHORIZATION);
    assert_challenge(check("POST", &headers));
    assert_challenge(check("GET", &headers));
    headers.insert(
        AUTHORIZATION,
        HeaderValue::from_static("Bearer definitely-wrong"),
    );
    assert_challenge(check("POST", &headers));
    headers.insert(
        AUTHORIZATION,
        bearer("__________________________________________8"),
    );
    assert_challenge(check("POST", &headers));
}

#[test]
fn authenticated_request_by_another_method_is_told_to_post() {
    for method in ["GET", "PUT", "post", ""] {
        let reply = check(method, &good_headers()).unwrap();
        assert_eq!(reply.status, 405);
        assert_eq!(fields(&reply), vec![("allow", "POST")]);
        assert!(matches!(reply.body, ReplyBody::Empty));
    }
}

#[test]
fn request_that_takes_only_json_is_not_acceptable() {
    let mut headers = good_headers();
    headers.insert(ACCEPT, HeaderValue::from_static("application/json"));
    assert_empty(check("POST", &headers), 406);
}

#[test]
fn body_of_another_type_or_encoding_is_unsupported() {
    let mut headers = good_headers();
    headers.remove(CONTENT_TYPE);
    assert_empty(check("POST", &headers), 415);
    let mut encoded = good_headers();
    encoded.insert(CONTENT_ENCODING, HeaderValue::from_static("gzip"));
    assert_empty(check("POST", &encoded), 415);
}

#[test]
fn shutdown_is_told_after_accept_and_before_the_content_type() {
    let mut headers = good_headers();
    let shut = |headers: &HeaderMap| {
        let head = RequestHead::read(b"POST", headers);
        check_head(PORT, &token(), true, &head)
    };
    assert_empty(shut(&headers), 503);
    headers.remove(CONTENT_TYPE);
    assert_empty(shut(&headers), 503);
    headers.insert(ACCEPT, HeaderValue::from_static("text/html"));
    assert_empty(shut(&headers), 406);
    headers.remove(AUTHORIZATION);
    assert_challenge(shut(&headers));
}

#[test]
fn boundary_alone_does_not_look_at_the_method() {
    let head = RequestHead::read(b"GET", &good_headers());
    assert!(validate_request_boundary(PORT, &token(), &head).is_none());
    assert_empty(validate_request_boundary(1, &token(), &head), 403);
    assert_challenge(validate_request_boundary(PORT, &[b'B'; TOKEN_TEXT_LEN], &head));
}

#[test]
fn token_of_the_start_decides_whatever_happens_later() {
    let mut state = HttpState::new(PORT, token());
    let mut rotated = good_headers();
    rotated.insert(
        AUTHORIZATION,
        bearer("__________________________________________8"),
    );
    let call = match state.admit_call(&serde_json::Value::from(1)) {
        Ok(call) => call.call_id,
        Err(_) => panic!("the first call was rejected"),
    };
    assert!(state.check_request(b"POST", &good_headers()).is_none());
    assert_challenge(state.check_request(b"POST", &rotated));
    state.disconnect_call(call);
    state.complete_call(call);
    assert!(state.check_request(b"POST", &good_headers()).is_none());
    assert_challenge(state.check_request(b"POST", &rotated));
    state.begin_shutdown();
    assert_empty(state.check_request(b"POST", &good_headers()), 503);
    assert_challenge(state.check_request(b"POST", &rotated));
}

#[test]
fn no_rejection_begins_a_session() {
    let mut headers = good_headers();
    let mut rejections = vec![check("GET", &headers)];
    headers.insert(ACCEPT, HeaderValue::from_static("text/html"));
    rejections.push(check("POST", &headers));
    headers.remove(AUTHORIZATION);
    rejections.push(check("POST", &headers));
    headers.remove(HOST);
    rejections.push(check("POST", &headers));
    for rejection in rejections {
        let rejection = rejection.unwrap();
        assert!(rejection.fields.iter().all(|field| field.name != "mcp-session-id"));
    }
}

#[test]
fn other_paths_are_not_found() {
    assert_eq!(MCP_PATH, "/mcp");
    assert_empty(Some(not_found()), 404);
}

#[test]
fn address_is_the_loopback_address() {
    assert_eq!(authority_text(8765), "127.0.0.1:8765");
    assert_eq!(authority_text(80), "127.0.0.1:80");
    assert_eq!(origin_text(65535), "http://127.0.0.1:65535");
}

#[test]
fn content_type_is_given_once_with_any_parameters() {
    let says = |value: &str| content_type_is_json(&Some(value.as_bytes().to_vec()));
    assert!(says("application/json"));
    assert!(says(" \tAPPLICATION/Json \t; charset=\"utf-8\"; x"));
    assert!(says("application/json;"));
    assert!(!says("application/json, text/plain"));
    assert!(!says("application/jsonp"));
    assert!(!says("; application/json"));
    assert!(!says(""));
    assert!(!content_type_is_json(&None));
    assert!(!content_type_is_json(&Some(b"application/json; \xff".to_vec())));
    let mut headers = HeaderMap::new();
    headers.append(CONTENT_TYPE, HeaderValue::from_static("application/json"));
    headers.append(CONTENT_TYPE, HeaderValue::from_static("application/json"));
    assert!(!is_json_content_type(&headers));
}

#[test]
fn every_content_encoding_is_the_identity() {
    let unsupported = |values: &[&[u8]]| {
        encoding_is_unsupported(&values.iter().map(|value| value.to_vec()).collect())
    };
    assert!(!unsupported(&[]));
    assert!(!unsupported(&[b"identity", b"IDENTITY"]));
    assert!(unsupported(&[b"identity", b"br"]));
    assert!(unsupported(&[b" identity"]));
    assert!(unsupported(&[b"identity, identity"]));
    assert!(unsupported(&[b"\xff"]));
    let mut headers = HeaderMap::new();
    assert!(!has_unsupported_content_encoding(&headers));
    headers.append(CONTENT_ENCODING, HeaderValue::from_static("identity"));
    assert!(!has_unsupported_content_encoding(&headers));
    headers.append(CONTENT_ENCODING, HeaderValue::from_static("gzip"));
    assert!(has_unsupported_content_encoding(&headers));
}

#[test]
fn accept_takes_json_and_events_both() {
    let takes = |values: &[&[u8]]| {
        accept_takes_both(&values.iter().map(|value| value.to_vec()).collect())
    };
    assert!(takes(&[b"application/json, text/event-stream"]));
    assert!(takes(&[b"text/event-stream;q=0.5 , APPLICATION/JSON;q=0"]));
    assert!(takes(&[b"application/*,text/*"]));
    assert!(takes(&[b"application/json", b"text/event-stream"]));
    assert!(takes(&[b"text/event-stream", b"application/json"]));
    assert!(takes(&[b"text/html, */*;q=0.1"]));
    assert!(!takes(&[]));
    assert!(!takes(&[b""]));
    assert!(!takes(&[b"application/json"]));
    assert!(!takes(&[b"text/event-stream"]));
    assert!(!takes(&[b"application/json; text/event-stream"]));
}

#[test]
fn accept_items_may_be_spread_and_joined_by_others() {
    let takes = |values: &[&[u8]]| {
        accept_takes_both(&values.iter().map(|value| value.to_vec()).collect())
    };
    assert!(takes(&[b"text/html,application/json,text/event-stream"]));
    assert!(takes(&[b"text/event-stream,text/html", b"application/json"]));
    assert!(takes(&[b"text/html", b"text/event-stream", b"application/json", b""]));
    assert!(!takes(&[b"text/html,application/json", b"image/png"]));
}

#[test]
fn accept_value_that_is_no_text_spoils_what_comes_after_it() {
    let takes = |values: &[&[u8]]| {
        accept_takes_both(&values.iter().map(|value| value.to_vec()).collect())
    };
    assert!(takes(&[b"*/*", b"\xff"]));
    assert!(!takes(&[b"\xff", b"*/*"]));
    assert!(!takes(&[b"*/*, \xff"]));
    assert!(!takes(&[b"application/json, text/event-stream", b"\xff"]));
}

#[test]
fn accept_is_read_from_every_field() {
    let mut headers = HeaderMap::new();
    assert!(!accepts_mcp_response(&headers));
    headers.append(ACCEPT, HeaderValue::from_static("application/json"));
    assert!(!accepts_mcp_response(&headers));
    headers.append(ACCEPT, HeaderValue::from_static("text/*"));
    assert!(accepts_mcp_response(&headers));
}

#[test]
fn texts_are_compared_split_and_trimmed() {
    assert_eq!(ascii_bytes("aZ"), b"aZ");
    assert!(equal(b"ab", b"ab"));
    assert!(!equal(b"ab", b"aB"));
    assert!(!equal(b"ab", b"a"));
    assert!(equal_ignoring_case(b"aZ[", b"Az["));
    assert!(!equal_ignoring_case(b"[", b"{"));
    assert!(!equal_ignoring_case(b"@", b"`"));
    assert_eq!(find(b"a;b;c", b';'), 1);
    assert_eq!(find(b"abc", b';'), 3);
    assert_eq!(take_before(b"a;b;c", b';'), b"a");
    assert_eq!(take_before(b"abc", b';'), b"abc");
    assert_eq!(trim(b" \t a b \t"), b"a b");
    assert_eq!(trim(b" \t "), b"");
    assert_eq!(split_at_each(b",a,,b", b','), vec![&b""[..], b"a", b"", b"b"]);
    assert_eq!(split_at_each(b"", b','), vec![&b""[..]]);
}

#[test]
fn numbers_are_written_in_decimal() {
    assert_eq!(decimal_text(0), "0");
    assert_eq!(decimal_text(9), "9");
    assert_eq!(decimal_text(10), "10");
    assert_eq!(decimal_text(1234), "1234");
    assert_eq!(decimal_text(56789), "56789");
    assert_eq!(decimal_text(65535), "65535");
}
