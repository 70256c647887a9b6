//! The bearer token of a request, compared in constant time.

use crate::headers::{
    bytes_in, header_contents, is_text, is_visible, is_visible_text, law_text_is_printable, single,
    single_header, values_under, AUTHORIZATION,
};
use crate::text::{
    after, ascii, ascii_bytes, before, equal_ignoring_case, find, law_case_is_all_that_is_ignored,
    law_cut_at_the_first_occurrence, lemma_position, lower, position, same_ignoring_case,
};
use axum::http::HeaderMap;
use subtle::{Choice, ConstantTimeEq};
use vstd::prelude::*;

verus! {

/// The length of a token: 32 bytes in unpadded base64url.
pub const TOKEN_TEXT_LEN: usize = 43;

/// The credential of an authorization value: what follows its first space, where a bearer scheme,
/// in any case, stands before that space.
pub open spec fn bearer_credential(value: Seq<u8>) -> Option<Seq<u8>> {
    if position(value, 0x20) < value.len() && same_ignoring_case(
        before(value, 0x20),
        ascii("Bearer"@),
    ) {
        Some(after(value, 0x20))
    } else {
        None
    }
}

/// The request authorizes itself with exactly the expected token.
pub open spec fn presents(authorization: Option<Seq<u8>>, expected: Seq<u8>) -> bool {
    authorization matches Some(value) && is_text(value) && bearer_credential(value) == Some(
        expected,
    )
}

/// Calls `ct_eq` of `subtle::ConstantTimeEq` on the two slices and combines its `Choice` by `&`
/// with one made from `counted`.
///
/// Trusted: the answer is yes exactly where the slices are equal and `counted` holds. That the
/// time taken does not depend on the bytes is a property of the code that no contract states.
#[verifier::external_body]
fn equal_in_constant_time(left: &[u8], right: &[u8], counted: bool) -> (equal: bool)
    ensures
        equal == (left@ == right@ && counted),
{
    bool::from(left.ct_eq(right) & Choice::from(u8::from(counted)))
}

fn read_credential(value: &[u8]) -> (credential: Option<&[u8]>)
    ensures
        match credential {
            Some(credential) => bearer_credential(value@) == Some(credential@),
            None => bearer_credential(value@) is None,
        },
{
    proof {
        reveal_strlit("Bearer");
    }
    let space: usize = find(value, 0x20);
    if space >= value.len() {
        return None;
    }
    let scheme = &value[0..space];
    assert(scheme@ =~= before(value@, 0x20));
    if !equal_ignoring_case(scheme, ascii_bytes("Bearer")) {
        return None;
    }
    let credential = &value[space + 1..value.len()];
    assert(credential@ =~= after(value@, 0x20));
    Some(credential)
}

fn credential_of(authorization: &Option<Vec<u8>>) -> (credential: Option<&[u8]>)
    ensures
        match credential {
            Some(credential) => {
                &&& authorization is Some
                &&& is_text(authorization->0@)
                &&& bearer_credential(authorization->0@) == Some(credential@)
            },
            None => authorization is None || !is_text(authorization->0@) || bearer_credential(
                authorization->0@,
            ) is None,
        },
{
    match authorization {
        Some(value) => if is_visible_text(value.as_slice()) {
            read_credential(value.as_slice())
        } else {
            None
        },
        None => None,
    }
}

/// Whether an authorization value that was given once presents the expected token.
///
/// The comparison is made over a buffer of the token's length whatever was presented.
pub fn authorization_matches(
    authorization: &Option<Vec<u8>>,
    expected: &[u8; TOKEN_TEXT_LEN],
) -> (authorized: bool)
    ensures
        authorized == presents(bytes_in(*authorization), expected@),
{
    let credential = credential_of(authorization);
    let mut candidate: [u8; TOKEN_TEXT_LEN] = [0; TOKEN_TEXT_LEN];
    let mut valid_length: bool = false;
    if let Some(value) = credential {
        valid_length = value.len() == TOKEN_TEXT_LEN;
        let length: usize = if value.len() < TOKEN_TEXT_LEN {
            value.len()
        } else {
            TOKEN_TEXT_LEN
        };
        for i in 0..length
            invariant
                length <= value@.len(),
                length <= TOKEN_TEXT_LEN,
                forall|j: int| 0 <= j < i ==> candidate@[j] == value@[j],
        {
            candidate[i] = value[i];
        }
        assert(valid_length ==> candidate@ =~= value@);
    }
    equal_in_constant_time(expected.as_slice(), candidate.as_slice(), valid_length)
}

/// Whether the request authorizes itself, once, with exactly the expected token.
pub fn authorized(headers: &HeaderMap, expected: &[u8; TOKEN_TEXT_LEN]) -> (authorized: bool)
    ensures
        authorized == presents(
            single(values_under(header_contents(*headers), AUTHORIZATION@)),
            expected@,
        ),
{
    proof {
        reveal_strlit("authorization");
    }
    authorization_matches(&single_header(headers, AUTHORIZATION), expected)
}

/// A request presents at most one token: one that is let in with a token is not let in with
/// another.
pub proof fn law_one_token(authorization: Option<Seq<u8>>, first: Seq<u8>, second: Seq<u8>)
    requires
        presents(authorization, first),
        presents(authorization, second),
    ensures
        first == second,
{
}

/// The scheme and the token, with one space between them, present the token: the scheme in any
/// case, the token as it is.
pub proof fn law_bearer_scheme_presents(scheme: Seq<u8>, token: Seq<u8>)
    requires
        same_ignoring_case(scheme, ascii("Bearer"@)),
        is_text(token),
    ensures
        presents(Some(scheme + seq![0x20u8] + token), token),
{
    reveal_strlit("Bearer");
    let value = scheme + seq![0x20u8] + token;
    assert forall|i: int| 0 <= i < scheme.len() implies scheme[i] != 0x20 && is_visible(#[trigger] scheme[i]) by {
        assert(lower(scheme[i]) == lower(ascii("Bearer"@)[i]));
    }
    lemma_position(value, 0x20);
    assert(value[scheme.len() as int] == 0x20);
    if position(value, 0x20) < scheme.len() {
        assert(value[position(value, 0x20)] == scheme[position(value, 0x20)]);
    }
    assert(position(value, 0x20) == scheme.len());
    assert(before(value, 0x20) =~= scheme);
    assert(after(value, 0x20) =~= token);
    assert forall|i: int| 0 <= i < value.len() implies is_visible(#[trigger] value[i]) by {
        if i < scheme.len() {
            assert(value[i] == scheme[i]);
        } else if i > scheme.len() {
            assert(value[i] == token[i - scheme.len() - 1]);
        }
    }
}

/// An authorization is judged by what stands on the two sides of its first space: it presents a
/// token exactly where all of it is text, the left side spells the bearer scheme in any case, and
/// the right side is the token, byte for byte. Without a space, or without the field, nothing is
/// presented.
pub proof fn law_authorization_is_scheme_space_token(
    scheme: Seq<u8>,
    credential: Seq<u8>,
    token: Seq<u8>,
)
    requires
        forall|i: int| 0 <= i < scheme.len() ==> scheme[i] != 0x20,
    ensures
        !presents(None, token),
        !presents(Some(scheme), token),
        presents(Some(scheme + seq![0x20u8] + credential), token) <==> {
            &&& credential == token
            &&& scheme.len() == "Bearer"@.len()
            &&& forall|i: int|
                0 <= i < scheme.len() ==> {
                    ||| #[trigger] scheme[i] == "Bearer"@[i] as u8
                    ||| 0x41 <= scheme[i] <= 0x5a && "Bearer"@[i] as u8 == scheme[i] + 0x20
                    ||| 0x61 <= scheme[i] <= 0x7a && scheme[i] == ("Bearer"@[i] as u8) + 0x20
                }
            &&& forall|i: int|
                0 <= i < credential.len() ==> 0x20 <= #[trigger] credential[i] && credential[i]
                    < 0x7f || credential[i] == 0x09
        },
{
    reveal_strlit("Bearer");
    let name = "Bearer"@;
    let value = scheme + seq![0x20u8] + credential;
    law_cut_at_the_first_occurrence(scheme, credential, 0x20);
    law_case_is_all_that_is_ignored(scheme, ascii(name));
    law_text_is_printable(value);
    law_text_is_printable(credential);
    assert forall|i: int| 0 <= i < name.len() implies #[trigger] ascii(name)[i] == name[i] as u8 by {}
    if presents(Some(value), token) {
        assert forall|i: int| 0 <= i < scheme.len() implies {
            ||| #[trigger] scheme[i] == name[i] as u8
            ||| 0x41 <= scheme[i] <= 0x5a && name[i] as u8 == scheme[i] + 0x20
            ||| 0x61 <= scheme[i] <= 0x7a && scheme[i] == (name[i] as u8) + 0x20
        } by {
            assert(ascii(name)[i] == name[i] as u8);
        }
        assert forall|i: int| 0 <= i < credential.len() implies 0x20 <= #[trigger] credential[i]
            && credential[i] < 0x7f || credential[i] == 0x09 by {
            assert(value[scheme.len() + 1 + i] == credential[i]);
        }
    }
    if credential == token && scheme.len() == name.len() && (forall|i: int|
        0 <= i < scheme.len() ==> {
            ||| #[trigger] scheme[i] == name[i] as u8
            ||| 0x41 <= scheme[i] <= 0x5a && name[i] as u8 == scheme[i] + 0x20
            ||| 0x61 <= scheme[i] <= 0x7a && scheme[i] == (name[i] as u8) + 0x20
        }) && is_text(credential) {
        assert forall|i: int| 0 <= i < scheme.len() implies {
            ||| #[trigger] scheme[i] == ascii(name)[i]
            ||| 0x41 <= scheme[i] <= 0x5a && ascii(name)[i] == scheme[i] + 0x20
            ||| 0x61 <= scheme[i] <= 0x7a && scheme[i] == ascii(name)[i] + 0x20
        } by {
            assert(ascii(name)[i] == name[i] as u8);
        }
        law_bearer_scheme_presents(scheme, token);
    }
}

} // verus!
