use vstd::prelude::*;

verus! {

/// What one HTTP exchange came to: a reply with a status and body, or
/// no reply at all (connection, DNS, TLS, timeout, a bad URL).
pub enum HttpOutcome {
    Response { status: u16, body: Vec<u8> },
    Failure { message: String },
}

/// Relies on ureq's `get`, `Request::set` and `Request::call`: one GET
/// request carrying the `X-Client-Token` header. Any reply that has an
/// HTTP status becomes `Response` (ureq reports statuses of 400 and
/// above as `Error::Status`), everything else `Failure`. Nothing is
/// assumed about which outcome comes back.
#[verifier::external_body]
pub(crate) fn http_get(url: &str, token: &str) -> HttpOutcome {
    match ureq::get(url).set("X-Client-Token", token).call() {
        Ok(resp) => { let status = resp.status(); match resp.into_string() {
            Ok(b) => HttpOutcome::Response { status, body: b.into_bytes() },
            Err(e) => HttpOutcome::Failure { message: e.to_string() },
        } },
        Err(ureq::Error::Status(status, resp)) => HttpOutcome::Response {
            status, body: resp.into_string().map(String::into_bytes).unwrap_or_default() },
        Err(e) => HttpOutcome::Failure { message: e.to_string() },
    }
}

/// Relies on ureq's `post`, `Request::set` and `Request::send_bytes`:
/// one POST of the given body as `application/json`, carrying the
/// `X-Client-Token` header. Outcomes are reported as in `http_get`.
#[verifier::external_body]
pub(crate) fn http_post(url: &str, token: &str, body: &Vec<u8>) -> HttpOutcome {
    let req = ureq::post(url).set("X-Client-Token", token).set("Content-Type", "application/json");
    match req.send_bytes(body.as_slice()) {
        Ok(resp) => { let status = resp.status(); match resp.into_string() {
            Ok(b) => HttpOutcome::Response { status, body: b.into_bytes() },
            Err(e) => HttpOutcome::Failure { message: e.to_string() },
        } },
        Err(ureq::Error::Status(status, resp)) => HttpOutcome::Response {
            status, body: resp.into_string().map(String::into_bytes).unwrap_or_default() },
        Err(e) => HttpOutcome::Failure { message: e.to_string() },
    }
}

/// Relies on ureq's `post`, `Request::set` and `Request::send_bytes`:
/// one POST of the given body as `application/json` without any
/// authentication header (the login and refresh endpoints).
#[verifier::external_body]
pub(crate) fn http_post_unauthed(url: &str, body: &Vec<u8>) -> HttpOutcome {
    let req = ureq::post(url).set("Content-Type", "application/json");
    match req.send_bytes(body.as_slice()) {
        Ok(resp) => { let status = resp.status(); match resp.into_string() {
            Ok(b) => HttpOutcome::Response { status, body: b.into_bytes() },
            Err(e) => HttpOutcome::Failure { message: e.to_string() },
        } },
        Err(ureq::Error::Status(status, resp)) => HttpOutcome::Response {
            status, body: resp.into_string().map(String::into_bytes).unwrap_or_default() },
        Err(e) => HttpOutcome::Failure { message: e.to_string() },
    }
}

} // verus!
