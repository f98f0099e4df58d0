//! HTTP responses that the dispatcher writes back to its clients.
use vstd::prelude::*;
use vstd::utf8::encode_utf8;
use crate::text::{decimal, push_decimal, push_str};

verus! {

/// Number of bytes in the UTF-8 encoding of `s`.
pub open spec fn byte_len(s: Seq<char>) -> nat {
    encode_utf8(s).len()
}

/// A response: `head`, the byte length of `body` in decimal, `mid`, then `body`.
pub open spec fn framed(head: Seq<char>, mid: Seq<char>, body: Seq<char>) -> Seq<char> {
    head + decimal(byte_len(body)) + mid + body
}

/// Writes `head`, the byte length of `body`, `mid` and `body`.
pub fn frame(head: &str, mid: &str, body: &str) -> (r: String)
    ensures
        r@ == framed(head@, mid@, body@),
{
    let n = body.as_bytes().len();
    let mut r = String::new();
    push_str(&mut r, head);
    push_decimal(&mut r, n as u64);
    push_str(&mut r, mid);
    push_str(&mut r, body);
    assert(r@ =~= framed(head@, mid@, body@));
    r
}

/// `{"status":200,"message":"<body>"}`
pub open spec fn ok_json(body: Seq<char>) -> Seq<char> {
    "{\"status\":200,\"message\":\""@ + body + "\"}"@
}

/// `{"status" : 400, "error" : "<msg>"}`
pub open spec fn bad_request_json(msg: Seq<char>) -> Seq<char> {
    "{\"status\" : 400, \"error\" : \""@ + msg + "\"}"@
}

/// `{"status":500,"message":"<msg>"}`
pub open spec fn server_error_json(msg: Seq<char>) -> Seq<char> {
    "{\"status\":500,\"message\":\""@ + msg + "\"}"@
}

/// Wraps `pre`, `s` and `post` into one string.
pub fn enclose(pre: &str, s: &str, post: &str) -> (r: String)
    ensures
        r@ == pre@ + s@ + post@,
{
    let mut r = String::new();
    push_str(&mut r, pre);
    push_str(&mut r, s);
    push_str(&mut r, post);
    assert(r@ =~= pre@ + s@ + post@);
    r
}

/// A `200 OK` response whose JSON body carries `body` as its message.
pub fn http_response_200(body: &str) -> (r: String)
    ensures
        r@ == framed(
            "HTTP/1.0 200 OK\r\nContent-Type: application/json\r\nContent-Length: "@,
            "\r\n\r\n"@,
            ok_json(body@),
        ),
{
    let json = enclose("{\"status\":200,\"message\":\"", body, "\"}");
    frame(
        "HTTP/1.0 200 OK\r\nContent-Type: application/json\r\nContent-Length: ",
        "\r\n\r\n",
        json.as_str(),
    )
}

/// A `400 Bad Request` response carrying `msg` as its error.
pub fn http_resonse_400(msg: &str) -> (r: String)
    ensures
        r@ == framed(
            "HTTP/1.0 400 Bad Request\r\nContent-Length: "@,
            "\r\nContent-Type: text/plain\r\n\r\n"@,
            bad_request_json(msg@),
        ),
{
    let json = enclose("{\"status\" : 400, \"error\" : \"", msg, "\"}");
    frame(
        "HTTP/1.0 400 Bad Request\r\nContent-Length: ",
        "\r\nContent-Type: text/plain\r\n\r\n",
        json.as_str(),
    )
}

/// A `500 Internal Server Error` response with a JSON body carrying `msg`.
pub fn http_response_500_json(msg: &str) -> (r: String)
    ensures
        r@ == framed(
            "HTTP/1.0 500 Internal Server Error\r\nContent-Type: application/json\r\nContent-Length: "@,
            "\r\n\r\n"@,
            server_error_json(msg@),
        ),
{
    let json = enclose("{\"status\":500,\"message\":\"", msg, "\"}");
    frame(
        "HTTP/1.0 500 Internal Server Error\r\nContent-Type: application/json\r\nContent-Length: ",
        "\r\n\r\n",
        json.as_str(),
    )
}

/// The status line's tail after the code: the code, a space, and its reason phrase.
pub open spec fn forwarded_head(code: nat, reason: Seq<char>) -> Seq<char> {
    "HTTP/1.1 "@ + decimal(code) + " "@ + reason + "\r\nContent-Type: application/json\r\nContent-Length: "@
}

/// Relays a worker's reply: its status code and reason phrase, and its body verbatim.
pub fn format_forwarded_response(code: u16, reason: &str, body: &str) -> (r: String)
    ensures
        r@ == framed(forwarded_head(code as nat, reason@), "\r\n\r\n"@, body@),
{
    let mut head = String::new();
    push_str(&mut head, "HTTP/1.1 ");
    push_decimal(&mut head, code as u64);
    push_str(&mut head, " ");
    push_str(&mut head, reason);
    push_str(&mut head, "\r\nContent-Type: application/json\r\nContent-Length: ");
    assert(head@ =~= forwarded_head(code as nat, reason@));
    frame(head.as_str(), "\r\n\r\n", body)
}

/// Answer when no worker is configured.
pub open spec fn no_workers_configured() -> Seq<char> {
    "HTTP/1.1 503 Service Unavailable\r\n\r\nNo workers configured"@
}

/// Answer when no worker is active.
pub open spec fn no_active_workers() -> Seq<char> {
    "HTTP/1.1 503 Service Unavailable\r\n\r\nNo active workers available"@
}

/// Answer when every attempt failed.
pub open spec fn all_attempts_failed() -> Seq<char> {
    "HTTP/1.1 502 Bad Gateway\r\n\r\nCould not complete the task after all workers failed"@
}

pub fn response_no_workers_configured() -> (r: String)
    ensures
        r@ == no_workers_configured(),
{
    "HTTP/1.1 503 Service Unavailable\r\n\r\nNo workers configured".to_string()
}

pub fn response_no_active_workers() -> (r: String)
    ensures
        r@ == no_active_workers(),
{
    "HTTP/1.1 503 Service Unavailable\r\n\r\nNo active workers available".to_string()
}

pub fn response_all_attempts_failed() -> (r: String)
    ensures
        r@ == all_attempts_failed(),
{
    "HTTP/1.1 502 Bad Gateway\r\n\r\nCould not complete the task after all workers failed".to_string()
}

} // verus!
