use vstd::prelude::*;
use vstd::string::*;
use vstd::utf8::{encode_utf8, is_ascii_chars, is_ascii_chars_encode_utf8};

use reqwest::header::{HeaderValue, InvalidHeaderValue};

use crate::message::PipelineError;

verus! {

#[verifier::external_type_specification]
#[verifier::external_body]
pub struct ExHeaderValue(HeaderValue);

#[verifier::external_type_specification]
#[verifier::external_body]
pub struct ExInvalidHeaderValue(InvalidHeaderValue);

/// A byte that an HTTP header value may carry: a tab, or anything from 0x20 up
/// but DEL.
pub open spec fn header_byte_ok(b: u8) -> bool {
    (b >= 32 && b != 127) || b == 9
}

pub open spec fn valid_header_value(bytes: Seq<u8>) -> bool {
    forall|i: int| 0 <= i < bytes.len() ==> header_byte_ok(#[trigger] bytes[i])
}

pub open spec fn bearer_prefix() -> Seq<char> {
    seq!['B', 'e', 'a', 'r', 'e', 'r', ' ']
}

/// The `Authorization` value for a token.
pub open spec fn authorization_of(token: Seq<char>) -> Seq<char> {
    bearer_prefix() + token
}

/// A token can be sent exactly where its `Authorization` value is a valid header value.
pub open spec fn valid_token(token: Seq<char>) -> bool {
    valid_header_value(encode_utf8(authorization_of(token)))
}

pub open spec fn msgpack_content_type() -> Seq<char> {
    seq![
        'a', 'p', 'p', 'l', 'i', 'c', 'a', 't', 'i', 'o', 'n', '/', 'm', 's', 'g', 'p', 'a', 'c', 'k',
    ]
}

pub open spec fn empty_body_text() -> Seq<char> {
    seq!['<', 'e', 'm', 'p', 't', 'y', '>']
}

/// Relies on http's HeaderValue::from_str (re-exported by reqwest): it accepts a
/// string exactly when each of its UTF-8 bytes is a tab, or at least 0x20 and not 0x7f.
#[verifier::external_body]
fn header_value(s: &str) -> (r: Result<HeaderValue, InvalidHeaderValue>)
    ensures
        r is Ok <==> valid_header_value(s.spec_bytes()),
{
    HeaderValue::from_str(s)
}

/// The two headers that every ingestion request carries, as texts already
/// checked to be valid header values.
#[derive(Debug)]
pub struct RequestHeaders {
    /// `Bearer <token>`
    pub authorization: String,
    /// `application/msgpack`
    pub content_type: String,
}

/// One ingestion request, ready to be posted.
#[derive(Debug)]
pub struct Request {
    pub url: String,
    pub headers: RequestHeaders,
    pub body: Vec<u8>,
}

/// `Bearer ` followed by the token.
pub fn authorization_value(token: &str) -> (r: String)
    ensures
        r@ == authorization_of(token@),
{
    let mut value = String::from_str("Bearer ");
    proof {
        reveal_strlit("Bearer ");
        assert("Bearer "@ =~= bearer_prefix());
    }
    value.append(token);
    value
}

/// Builds the `Authorization` (`Bearer <token>`) and `Content-Type`
/// (`application/msgpack`) headers; fails with `HeaderConstruction` exactly where
/// the token cannot stand in a header.
pub fn get_headers(token: &str) -> (r: Result<RequestHeaders, PipelineError>)
    ensures
        r is Ok <==> valid_token(token@),
        r matches Ok(h) ==> h.authorization@ == authorization_of(token@) && h.content_type@
            == msgpack_content_type(),
        r matches Err(e) ==> e is HeaderConstruction,
{
    let authorization = authorization_value(token);
    if header_value(authorization.as_str()).is_err() {
        return Err(PipelineError::HeaderConstruction);
    }
    let content_type = "application/msgpack";
    proof {
        reveal_strlit("application/msgpack");
        let cs = content_type@;
        assert(is_ascii_chars(cs));
        is_ascii_chars_encode_utf8(cs);
        assert(valid_header_value(content_type.spec_bytes()));
        assert(cs =~= msgpack_content_type());
    }
    if header_value(content_type).is_err() {
        return Err(PipelineError::HeaderConstruction);
    }
    Ok(RequestHeaders { authorization, content_type: String::from_str(content_type) })
}

/// Reads the endpoint's answer: any 2xx status is success; any other status is
/// a `DeliveryStatus` error with the status and the body text, or `<empty>` where
/// the body could not be read.
pub fn classify_response(status: u16, body: Option<String>) -> (r: Result<(), PipelineError>)
    ensures
        r is Ok <==> 200 <= status < 300,
        r matches Err(e) ==> e matches PipelineError::DeliveryStatus { status: s, body: b } && s
            == status && b@ == match body {
            Some(t) => t@,
            None => empty_body_text(),
        },
{
    if 200 <= status && status < 300 {
        return Ok(());
    }
    let text = match body {
        Some(t) => t,
        None => {
            proof {
                reveal_strlit("<empty>");
                assert("<empty>"@ =~= empty_body_text());
            }
            String::from_str("<empty>")
        },
    };
    Err(PipelineError::DeliveryStatus { status, body: text })
}

} // verus!
