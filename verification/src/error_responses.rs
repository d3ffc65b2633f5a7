//! The wire format of the error responses.

use crate::text::{byte_len, byte_length, decimal, push_decimal};
use vstd::prelude::*;
use vstd::string::StringExecFns;

verus! {

/// The JSON body that reports `msg` as an error with the given opening.
pub open spec fn error_json(opening: Seq<char>, msg: Seq<char>) -> Seq<char> {
    opening + msg + "\"}"@
}

/// The body of a not-found response.
pub open spec fn not_found_json(msg: Seq<char>) -> Seq<char> {
    error_json("{\"status\" : 404, \"error\" : \""@, msg)
}

/// The body of a bad-request response.
pub open spec fn bad_request_json(msg: Seq<char>) -> Seq<char> {
    error_json("{\"status\" : 400, \"error\" : \""@, msg)
}

/// The body of a server-error response.
pub open spec fn server_error_json(msg: Seq<char>) -> Seq<char> {
    error_json("{\"status\":500,\"message\":\""@, msg)
}

/// A plain-text response: status line, the body's length in bytes, the
/// content type, a blank line and the body.
pub open spec fn plain_response(status_line: Seq<char>, json: Seq<char>) -> Seq<char> {
    status_line + "\r\nContent-Length: "@ + decimal(byte_len(json))
        + "\r\nContent-Type: text/plain\r\n\r\n"@ + json
}

/// The response for a route that does not exist.
pub open spec fn response_404(msg: Seq<char>) -> Seq<char> {
    plain_response("HTTP/1.0 404 Not Found"@, not_found_json(msg))
}

/// The response for a request with missing or malformed parameters. Its body
/// carries status 400 while its status line carries the code 404.
pub open spec fn response_400(msg: Seq<char>) -> Seq<char> {
    plain_response("HTTP/1.0 404 Bad Request"@, bad_request_json(msg))
}

/// The response for a failure inside the server.
pub open spec fn response_500(msg: Seq<char>) -> Seq<char> {
    "HTTP/1.0 500 Internal Server Error\r\nContent-Type: application/json\r\nContent-Length: "@
        + decimal(byte_len(server_error_json(msg))) + "\r\n\r\n"@ + server_error_json(msg)
}

fn render_error_json(opening: &str, msg: &str) -> (json: String)
    ensures
        json@ == error_json(opening@, msg@),
{
    let mut json = String::new();
    json.append(opening);
    json.append(msg);
    json.append("\"}");
    json
}

fn render_plain(status_line: &str, json: &str) -> (r: String)
    ensures
        r@ == plain_response(status_line@, json@),
{
    let mut out = String::new();
    out.append(status_line);
    out.append("\r\nContent-Length: ");
    push_decimal(&mut out, byte_length(json) as u128);
    out.append("\r\nContent-Type: text/plain\r\n\r\n");
    out.append(json);
    out
}

/// Renders the response for a route that does not exist.
pub fn http_resonse_404(msg: &str) -> (r: String)
    ensures
        r@ == response_404(msg@),
{
    let json = render_error_json("{\"status\" : 404, \"error\" : \"", msg);
    render_plain("HTTP/1.0 404 Not Found", json.as_str())
}

/// Renders the response for a request with missing or malformed parameters.
pub fn http_resonse_400(msg: &str) -> (r: String)
    ensures
        r@ == response_400(msg@),
{
    let json = render_error_json("{\"status\" : 400, \"error\" : \"", msg);
    render_plain("HTTP/1.0 404 Bad Request", json.as_str())
}

/// Renders the response for a failure inside the server.
pub fn http_response_500_json(msg: &str) -> (r: String)
    ensures
        r@ == response_500(msg@),
{
    let json = render_error_json("{\"status\":500,\"message\":\"", msg);
    let mut out = String::new();
    out.append(
        "HTTP/1.0 500 Internal Server Error\r\nContent-Type: application/json\r\nContent-Length: ",
    );
    push_decimal(&mut out, byte_length(json.as_str()) as u128);
    out.append("\r\n\r\n");
    out.append(json.as_str());
    out
}

} // verus!
