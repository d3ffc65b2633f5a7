//! The wire format of a successful response.

use crate::text::{byte_len, byte_length, decimal, push_decimal};
use vstd::prelude::*;
use vstd::string::StringExecFns;

verus! {

/// The JSON body that reports `body` as the message of a successful request.
pub open spec fn success_json(body: Seq<char>) -> Seq<char> {
    "{\"status\":200,\"message\":\""@ + body + "\"}"@
}

/// The full response around `success_json(body)`: status line, content type,
/// the body's length in bytes, a blank line and the body. The status line
/// says `202 Accepted` while the body carries status 200.
pub open spec fn response_200(body: Seq<char>) -> Seq<char> {
    "HTTP/1.0 202 Accepted\r\nContent-Type: application/json\r\nContent-Length: "@ + decimal(
        byte_len(success_json(body)),
    ) + "\r\n\r\n"@ + success_json(body)
}

/// Renders the response that carries `body` as the result of a request.
pub fn http_response_200(body: &str) -> (r: String)
    ensures
        r@ == response_200(body@),
{
    let mut json = String::new();
    json.append("{\"status\":200,\"message\":\"");
    json.append(body);
    json.append("\"}");
    let mut out = String::new();
    out.append("HTTP/1.0 202 Accepted\r\nContent-Type: application/json\r\nContent-Length: ");
    push_decimal(&mut out, byte_length(json.as_str()) as u128);
    out.append("\r\n\r\n");
    out.append(json.as_str());
    out
}

} // verus!
