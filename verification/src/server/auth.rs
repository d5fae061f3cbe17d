use vstd::prelude::*;
use vstd::utf8::{decode_utf8, encode_utf8, valid_utf8};

use crate::codec::{base64_decode, base64_decode_bytes, utf8_string};
use crate::text::{after_first, after_first_chars, chars_eq, chars_of, contains_char, opt_chars, slice_chars, string_of};

verus! {

/// `Basic ` followed by a space, the scheme prefix of a Basic credential.
pub open spec fn basic_prefix() -> Seq<char> {
    seq!['B', 'a', 's', 'i', 'c', ' ']
}

/// The token inside decoded Basic credentials `user:password`: the password, that is
/// the text after the first `:` (the user name, empty for ClipSync clients, is not
/// checked); credentials without a `:` are the token as a whole. None when the bytes
/// are not UTF-8.
pub open spec fn credentials_token(bytes: Seq<u8>) -> Option<Seq<char>> {
    if !valid_utf8(bytes) {
        None
    } else if decode_utf8(bytes).contains(':') {
        Some(after_first(decode_utf8(bytes), ':'))
    } else {
        Some(decode_utf8(bytes))
    }
}

/// The token that an `Authorization` header value carries: `Basic ` and base64 of
/// UTF-8 credentials whose password is the token.
pub open spec fn header_token(header: Seq<char>) -> Option<Seq<char>> {
    if header.len() >= 6 && header.take(6) == basic_prefix() {
        match base64_decode(encode_utf8(header.skip(6))) {
            Some(bytes) => credentials_token(bytes),
            None => None,
        }
    } else {
        None
    }
}

pub open spec fn extracted_token(authorization: Option<Seq<char>>) -> Option<Seq<char>> {
    match authorization {
        Some(h) => header_token(h),
        None => None,
    }
}

fn token_of_credentials(bytes: Vec<u8>) -> (r: Option<String>)
    ensures
        match r {
            Some(t) => credentials_token(bytes@) == Some(t@),
            None => credentials_token(bytes@) is None,
        },
{
    match utf8_string(bytes) {
        Some(s) => {
            let cs = chars_of(s.as_str());
            if !contains_char(&cs, ':') {
                return Some(s);
            }
            let t = after_first_chars(&cs, ':');
            Some(string_of(&t))
        },
        None => None,
    }
}

/// The token of a Basic `Authorization` header value (`None` when the header is
/// missing, not Basic, not base64 or not UTF-8).
pub fn extract_token(authorization: Option<&str>) -> (r: Option<String>)
    ensures
        match r {
            Some(t) => extracted_token(opt_chars(authorization)) == Some(t@),
            None => extracted_token(opt_chars(authorization)) is None,
        },
{
    let header = match authorization {
        Some(h) => h,
        None => return None,
    };
    let cs = chars_of(header);
    let prefix = vec!['B', 'a', 's', 'i', 'c', ' '];
    if cs.len() < 6 {
        return None;
    }
    let head = slice_chars(&cs, 0, 6);
    assert(cs@.subrange(0, 6) =~= header@.take(6));
    if !chars_eq(&head, &prefix) {
        return None;
    }
    let rest = slice_chars(&cs, 6, cs.len());
    assert(rest@ =~= header@.skip(6));
    let encoded = string_of(&rest);
    match base64_decode_bytes(encoded.as_str().as_bytes()) {
        Some(bytes) => token_of_credentials(bytes),
        None => None,
    }
}

/// Whether an `Authorization` header value carries `expected_token`.
pub fn verify_auth(authorization: Option<&str>, expected_token: &str) -> (r: bool)
    ensures
        r == (extracted_token(opt_chars(authorization)) == Some(expected_token@)),
{
    match extract_token(authorization) {
        Some(t) => {
            let a = chars_of(t.as_str());
            let b = chars_of(expected_token);
            chars_eq(&a, &b)
        },
        None => false,
    }
}

/// The HTTP status of a refused request: 401 Unauthorized.
pub open spec fn unauthorized() -> u16 {
    401
}

/// Admits a request whose `Authorization` header carries the token, else 401.
pub fn require_auth(authorization: Option<&str>, expected_token: &str) -> (r: Result<(), u16>)
    ensures
        r is Ok <==> extracted_token(opt_chars(authorization)) == Some(expected_token@),
        r matches Err(code) ==> code == unauthorized(),
{
    if verify_auth(authorization, expected_token) {
        Ok(())
    } else {
        Err(401)
    }
}

/// Whether the token of a WebSocket `Auth` message is accepted: the token itself, or
/// base64 of credentials `user:token`.
pub open spec fn ws_token_ok(msg_token: Seq<char>, expected: Seq<char>) -> bool {
    ||| msg_token == expected
    ||| match base64_decode(encode_utf8(msg_token)) {
        Some(bytes) => credentials_token(bytes) == Some(expected),
        None => false,
    }
}

/// Checks the token of a WebSocket `Auth` message.
pub fn verify_ws_token(msg_token: &str, expected_token: &str) -> (r: bool)
    ensures
        r == ws_token_ok(msg_token@, expected_token@),
{
    let a = chars_of(msg_token);
    let b = chars_of(expected_token);
    if chars_eq(&a, &b) {
        return true;
    }
    match base64_decode_bytes(msg_token.as_bytes()) {
        Some(bytes) => match token_of_credentials(bytes) {
            Some(t) => {
                let tc = chars_of(t.as_str());
                chars_eq(&tc, &b)
            },
            None => false,
        },
        None => false,
    }
}

} // verus!
