use vstd::prelude::*;

use vstd::string::StringExecFns;
use vstd::string::StrSliceExecFns;
use vstd::utf8::decode_utf8;
use vstd::utf8::valid_utf8;

use crate::errors::CheckvistError;
use crate::errors::classify_message;
use crate::errors::spec_classification_of;
use crate::http::HttpOutcome;
use crate::http::http_get;
use crate::http::http_post;
use crate::http::http_post_unauthed;
use crate::json::checklist_from_json;
use crate::json::checklists_from_json;
use crate::json::cl_matches;
use crate::json::cl_seq_matches;
use crate::json::key_message;
use crate::json::key_token;
use crate::json::message_from_json;
use crate::json::spec_checklist_doc;
use crate::json::spec_checklists_doc;
use crate::json::spec_sf_doc;
use crate::json::spec_task_doc;
use crate::json::spec_tasks_doc;
use crate::json::task_from_json;
use crate::json::task_to_json;
use crate::json::tasks_from_json;
use crate::json::tk_matches;
use crate::json::tk_seq_matches;
use crate::json::token_from_json;
use crate::json::add_list_body;
use crate::json::login_body;
use crate::json::refresh_body;
use crate::strutil::append_u32;
use crate::strutil::spec_u32_digits;
use crate::types::Checklist;
use crate::types::CheckvistLocation;
use crate::types::Task;

verus! {

// The HTTP transport client: builds requests, attaches the bearer
// token, and carries out the refresh-and-retry protocol on a 401.

/// Receives the new token after a successful refresh, so that the
/// surrounding application can persist it. Implemented by users of the
/// library; nothing is assumed of what it does.
pub trait TokenSink {
    fn on_token_refreshed(&mut self, token: &str);
}

/// The transport client under the name its callers also use.
pub type ApiClient<C> = CheckvistClient<C>;

/// A sink that ignores the refreshed token.
pub struct DiscardToken;

impl TokenSink for DiscardToken {
    fn on_token_refreshed(&mut self, _token: &str) {
    }
}

// ---------------------------------------------------------------------
// What one settled exchange means.
// ---------------------------------------------------------------------

pub open spec fn decode_failed_msg() -> Seq<char> {
    "unexpected response body"@
}

/// The error a body yields when it is not the expected entity: a
/// well-formed error envelope classifies by its message; anything else
/// is a decode failure.
pub open spec fn spec_envelope_err(body: Seq<u8>, e: CheckvistError) -> bool {
    match spec_sf_doc(body, key_message()) {
        Some(m) => if valid_utf8(m) {
            spec_classification_of(decode_utf8(m), e)
        } else {
            match e {
                CheckvistError::DecodeError { message } => message@ == decode_failed_msg(),
                _ => false,
            }
        },
        None => match e {
            CheckvistError::DecodeError { message } => message@ == decode_failed_msg(),
            _ => false,
        },
    }
}

/// A failing result whose error is the envelope classification of the
/// body.
pub open spec fn envelope_or_decode<T>(body: Seq<u8>, r: Result<T, CheckvistError>) -> bool {
    match r {
        Ok(_) => false,
        Err(e) => spec_envelope_err(body, e),
    }
}

fn resolve_envelope(body: &Vec<u8>) -> (e: CheckvistError)
    ensures
        spec_envelope_err(body@, e),
{
    match message_from_json(body) {
        Some(m) => classify_message(m),
        None => CheckvistError::DecodeError { message: String::from_str("unexpected response body") },
    }
}

pub open spec fn status_error_message(status: u16) -> Seq<char> {
    "HTTP status "@ + spec_u32_digits(status as int)
}

fn status_msg(status: u16) -> (r: String)
    ensures
        r@ == status_error_message(status),
{
    let mut s = String::from_str("HTTP status ");
    append_u32(&mut s, status as u32);
    s
}

/// The error a reply with a non-success status settles to: the
/// envelope classification when a well-formed envelope is present,
/// otherwise a transport error carrying the status.
pub open spec fn error_reply_settles(status: u16, body: Seq<u8>, e: CheckvistError) -> bool {
    match spec_sf_doc(body, key_message()) {
        Some(m) => if valid_utf8(m) {
            spec_classification_of(decode_utf8(m), e)
        } else {
            match e {
                CheckvistError::NetworkError { message } => message@ == status_error_message(
                    status,
                ),
                _ => false,
            }
        },
        None => match e {
            CheckvistError::NetworkError { message } => message@ == status_error_message(status),
            _ => false,
        },
    }
}

/// How one HTTP outcome settles, before any entity decoding: a 2xx
/// reply hands its body on; any other status classifies by its error
/// envelope, or counts as a transport failure carrying the status; no
/// reply at all is a transport failure with the reported message.
pub open spec fn settled(o: HttpOutcome, r: Result<Vec<u8>, CheckvistError>) -> bool {
    match o {
        HttpOutcome::Response { status, body } => {
            if 200 <= status < 300 {
                r == Ok::<Vec<u8>, CheckvistError>(body)
            } else {
                match r {
                    Err(e) => error_reply_settles(status, body@, e),
                    Ok(_) => false,
                }
            }
        },
        HttpOutcome::Failure { message } => r == Err::<Vec<u8>, CheckvistError>(
            CheckvistError::NetworkError { message },
        ),
    }
}

/// Settle one HTTP outcome as `settled` describes.
pub fn settle_response(o: HttpOutcome) -> (r: Result<Vec<u8>, CheckvistError>)
    ensures
        settled(o, r),
{
    match o {
        HttpOutcome::Response { status, body } => {
            if 200 <= status && status < 300 {
                Ok(body)
            } else {
                match message_from_json(&body) {
                    Some(m) => Err(classify_message(m)),
                    None => Err(CheckvistError::NetworkError { message: status_msg(status) }),
                }
            }
        },
        HttpOutcome::Failure { message } => Err(CheckvistError::NetworkError { message }),
    }
}

// ---------------------------------------------------------------------
// The refresh-and-retry protocol.
// ---------------------------------------------------------------------

pub open spec fn outcome_unauthorized(o: HttpOutcome) -> bool {
    match o {
        HttpOutcome::Response { status, body } => status == 401,
        HttpOutcome::Failure { .. } => false,
    }
}

fn is_unauthorized(o: &HttpOutcome) -> (r: bool)
    ensures
        r == outcome_unauthorized(*o),
{
    match o {
        HttpOutcome::Response { status, body } => *status == 401,
        HttpOutcome::Failure { .. } => false,
    }
}

/// Record of one authenticated exchange: the first reply, whether a
/// token refresh was attempted and succeeded, and the reply of the one
/// retry where one was sent.
pub struct RequestTrace {
    pub first: HttpOutcome,
    pub refresh_ok: bool,
    pub second: Option<HttpOutcome>,
}

/// The retry protocol. A first reply other than 401 settles as it is,
/// with no refresh and no second request. On a 401, the token is
/// refreshed once: if that succeeds, exactly one retry is sent and its
/// outcome settles verbatim; if it fails, the operation reports the
/// dead session and the original rejection is discarded.
pub open spec fn protocol_result(t: RequestTrace, r: Result<Vec<u8>, CheckvistError>) -> bool {
    if outcome_unauthorized(t.first) {
        if t.refresh_ok {
            match t.second {
                Some(o2) => settled(o2, r),
                None => false,
            }
        } else {
            r == Err::<Vec<u8>, CheckvistError>(CheckvistError::TokenRefreshFailedError)
                && t.second is None
        }
    } else {
        !t.refresh_ok && t.second is None && settled(t.first, r)
    }
}

/// How many requests the trace sends to the resource endpoint.
pub open spec fn resource_requests(t: RequestTrace) -> int {
    if outcome_unauthorized(t.first) && t.refresh_ok {
        2
    } else {
        1
    }
}

/// How many requests the trace sends to the refresh endpoint.
pub open spec fn refresh_requests(t: RequestTrace) -> int {
    if outcome_unauthorized(t.first) {
        1
    } else {
        0
    }
}

/// After a 401 answered by a successful refresh, exactly one retried
/// request is sent and its outcome is returned verbatim: two requests
/// reach the resource endpoint and one the refresh endpoint.
pub proof fn lemma_single_retry_after_unauthorized(
    t: RequestTrace,
    r: Result<Vec<u8>, CheckvistError>,
)
    requires
        protocol_result(t, r),
        outcome_unauthorized(t.first),
        t.refresh_ok,
    ensures
        t.second is Some,
        settled(t.second.unwrap(), r),
        resource_requests(t) == 2,
        refresh_requests(t) == 1,
{
}

/// When the refresh itself fails after a 401, the operation reports the
/// dead session; the original rejection is discarded: every such trace
/// yields the same result, whatever the first reply carried.
pub proof fn lemma_refresh_failure_surfaces(t: RequestTrace, r: Result<Vec<u8>, CheckvistError>)
    requires
        protocol_result(t, r),
        outcome_unauthorized(t.first),
        !t.refresh_ok,
    ensures
        r == Err::<Vec<u8>, CheckvistError>(CheckvistError::TokenRefreshFailedError),
        resource_requests(t) == 1,
        refresh_requests(t) == 1,
        forall|t2: RequestTrace, r2: Result<Vec<u8>, CheckvistError>|
            protocol_result(t2, r2) && outcome_unauthorized(t2.first) && !t2.refresh_ok ==> r2 == r,
{
}

/// A settled error is always a remote-reported kind: never the
/// dead-session error (which arises only from a failed refresh) and
/// never the local store's.
pub proof fn lemma_settled_error_is_remote(o: HttpOutcome, r: Result<Vec<u8>, CheckvistError>)
    requires
        settled(o, r),
    ensures
        match r {
            Ok(_) => true,
            Err(e) => !(e is TokenRefreshFailedError) && !(e is SqliteError),
        },
{
}

/// So is the envelope classification of a body: decoding a reply can
/// never report the dead session or the local store.
pub proof fn lemma_envelope_err_is_remote(body: Seq<u8>, e: CheckvistError)
    requires
        spec_envelope_err(body, e),
    ensures
        !(e is TokenRefreshFailedError),
        !(e is SqliteError),
{
}

/// Evidence of an accepted refresh or login: some success reply whose
/// token field reads as the given token.
pub open spec fn refresh_accepted(o: HttpOutcome, new_token: Seq<char>) -> bool {
    match o {
        HttpOutcome::Response { status, body } => 200 <= status < 300 && (match spec_sf_doc(
            body@,
            key_token(),
        ) {
            Some(b) => valid_utf8(b) && new_token == decode_utf8(b),
            None => false,
        }),
        HttpOutcome::Failure { .. } => false,
    }
}

/// Some success reply's token field reads as the given token: the
/// evidence a successful refresh leaves behind.
pub open spec fn some_reply_accepts(new_token: Seq<char>) -> bool {
    exists|o: HttpOutcome| #[trigger] refresh_accepted(o, new_token)
}

/// What the login exchange yields for a given reply: a success reply
/// resolves as the token envelope; any other settles as an error, as
/// `settled` describes.
pub open spec fn token_reply_resolves(o: HttpOutcome, r: Result<String, CheckvistError>) -> bool {
    match o {
        HttpOutcome::Response { status, body } => if 200 <= status < 300 {
            token_resolution(body@, r)
        } else {
            match r {
                Err(e) => error_reply_settles(status, body@, e),
                Ok(_) => false,
            }
        },
        HttpOutcome::Failure { message } => r == Err::<String, CheckvistError>(
            CheckvistError::NetworkError { message },
        ),
    }
}

/// Read the token field out of a success reply, as evidence that the
/// reply accepts this token.
fn accepted_token_of_reply(status: u16, body: Vec<u8>, o: Ghost<HttpOutcome>) -> (r: Option<
    String,
>)
    requires
        200 <= status < 300,
        o@ matches HttpOutcome::Response { status: s2, body: b2 } && s2 == status && b2@ == body@,
    ensures
        match r {
            Some(t) => refresh_accepted(o@, t@),
            None => true,
        },
{
    let r = token_from_json(&body);
    proof {
        match &r {
            Some(t) => {
                assert(refresh_accepted(o@, t@));
            },
            None => {},
        }
    }
    r
}

// ---------------------------------------------------------------------
// The client.
// ---------------------------------------------------------------------

/// `base_url` with at most one trailing slash removed, so that paths
/// beginning with `/` can be appended.
pub open spec fn normalize_base(s: Seq<char>) -> Seq<char> {
    if s.len() > 0 && s.last() == '/' {
        s.drop_last()
    } else {
        s
    }
}

/// The transport client: base URL, current bearer token, and the sink
/// told of each refreshed token.
pub struct CheckvistClient<C: TokenSink> {
    base_url: String,
    api_token: String,
    sink: C,
}

impl<C: TokenSink> CheckvistClient<C> {
    pub closed spec fn spec_base_url(&self) -> Seq<char> {
        self.base_url@
    }

    pub closed spec fn spec_token(&self) -> Seq<char> {
        self.api_token@
    }

    /// Build a client from a base URL (trailing slash tolerated), the
    /// current bearer token, and the sink that persists refreshed
    /// tokens. The base URL is not validated here: construction never
    /// fails, and a malformed base surfaces later as a transport
    /// failure on the first request.
    pub fn new(base_url: &str, api_token: &str, sink: C) -> (r: Self)
        ensures
            r.spec_base_url() == normalize_base(base_url@),
            r.spec_token() == api_token@,
    {
        let n = base_url.unicode_len();
        let base = if n > 0 && base_url.get_char(n - 1) == '/' {
            String::from_str(base_url.substring_char(0, n - 1))
        } else {
            String::from_str(base_url)
        };
        assert(base@ =~= normalize_base(base_url@));
        CheckvistClient { base_url: base, api_token: String::from_str(api_token), sink }
    }

    fn url_with_path(&self, path: &str) -> (r: String)
        ensures
            r@ == self.spec_base_url() + path@,
    {
        let mut u = self.base_url.clone();
        u.append(path);
        u
    }

    fn list_url(&self, list_id: u32, suffix: &str) -> (r: String)
        ensures
            r@ == self.spec_base_url() + "/checklists/"@ + spec_u32_digits(list_id as int)
                + suffix@,
    {
        let mut u = self.base_url.clone();
        u.append("/checklists/");
        append_u32(&mut u, list_id);
        u.append(suffix);
        assert(u@ =~= self.spec_base_url() + "/checklists/"@ + spec_u32_digits(list_id as int)
            + suffix@);
        u
    }

    fn task_url(&self, list_id: u32, task_id: u32) -> (r: String)
        ensures
            r@ == self.spec_base_url() + "/checklists/"@ + spec_u32_digits(list_id as int)
                + "/tasks/"@ + spec_u32_digits(task_id as int) + ".json"@,
    {
        let mut u = self.base_url.clone();
        u.append("/checklists/");
        append_u32(&mut u, list_id);
        u.append("/tasks/");
        append_u32(&mut u, task_id);
        u.append(".json");
        assert(u@ =~= self.spec_base_url() + "/checklists/"@ + spec_u32_digits(list_id as int)
            + "/tasks/"@ + spec_u32_digits(task_id as int) + ".json"@);
        u
    }

    /// Refresh the bearer token once: post the current token to the
    /// refresh endpoint. On success the reply's token field replaces
    /// the stored token in place — the caller needs no new client — and
    /// is handed to the sink; on any failure the session is dead and
    /// the old token stays in place. That the sink is told of the new
    /// token is a call on an opaque trait, visible in the body alone.
    #[verifier::rlimit(100)]
    pub fn refresh_token(&mut self) -> (r: Result<(), CheckvistError>)
        ensures
            final(self).spec_base_url() == old(self).spec_base_url(),
            match r {
                Ok(_) => some_reply_accepts(final(self).spec_token()),
                Err(e) => e == CheckvistError::TokenRefreshFailedError && final(self).spec_token()
                    == old(self).spec_token(),
            },
    {
        let url = self.url_with_path("/auth/refresh_token.json?version=2");
        let body = refresh_body(self.api_token.as_str());
        let outcome = http_post_unauthed(url.as_str(), &body);
        let ghost o = outcome;
        match outcome {
            HttpOutcome::Response { status, body } => {
                if 200 <= status && status < 300 {
                    match accepted_token_of_reply(status, body, Ghost(o)) {
                        Some(t) => {
                            self.api_token = t;
                            proof {
                                assert(refresh_accepted(o, self.spec_token()));
                                assert(some_reply_accepts(self.spec_token()));
                            }
                            let t2 = self.api_token.clone();
                            self.sink.on_token_refreshed(t2.as_str());
                            Ok(())
                        },
                        None => Err(CheckvistError::TokenRefreshFailedError),
                    }
                } else {
                    Err(CheckvistError::TokenRefreshFailedError)
                }
            },
            HttpOutcome::Failure { .. } => Err(CheckvistError::TokenRefreshFailedError),
        }
    }

    /// One authenticated GET under the retry protocol; the trace of
    /// outcomes is returned as ghost evidence.
    fn authed_get(&mut self, url: &str) -> (rt: (
        Result<Vec<u8>, CheckvistError>,
        Ghost<RequestTrace>,
    ))
        ensures
            protocol_result(rt.1@, rt.0),
            final(self).spec_base_url() == old(self).spec_base_url(),
            !rt.1@.refresh_ok ==> final(self).spec_token() == old(self).spec_token(),
            rt.1@.refresh_ok ==> some_reply_accepts(final(self).spec_token()),
    {
        let first = http_get(url, self.api_token.as_str());
        let ghost f = first;
        if is_unauthorized(&first) {
            match self.refresh_token() {
                Ok(_) => {
                    let second = http_get(url, self.api_token.as_str());
                    let ghost s2 = second;
                    let r = settle_response(second);
                    (r, Ghost(RequestTrace { first: f, refresh_ok: true, second: Some(s2) }))
                },
                Err(e) => (
                    Err(e),
                    Ghost(RequestTrace { first: f, refresh_ok: false, second: None }),
                ),
            }
        } else {
            let r = settle_response(first);
            (r, Ghost(RequestTrace { first: f, refresh_ok: false, second: None }))
        }
    }

    /// One authenticated POST under the retry protocol; the trace of
    /// outcomes is returned as ghost evidence.
    fn authed_post(&mut self, url: &str, body: &Vec<u8>) -> (rt: (
        Result<Vec<u8>, CheckvistError>,
        Ghost<RequestTrace>,
    ))
        ensures
            protocol_result(rt.1@, rt.0),
            final(self).spec_base_url() == old(self).spec_base_url(),
            !rt.1@.refresh_ok ==> final(self).spec_token() == old(self).spec_token(),
            rt.1@.refresh_ok ==> some_reply_accepts(final(self).spec_token()),
    {
        let first = http_post(url, self.api_token.as_str(), body);
        let ghost f = first;
        if is_unauthorized(&first) {
            match self.refresh_token() {
                Ok(_) => {
                    let second = http_post(url, self.api_token.as_str(), body);
                    let ghost s2 = second;
                    let r = settle_response(second);
                    (r, Ghost(RequestTrace { first: f, refresh_ok: true, second: Some(s2) }))
                },
                Err(e) => (
                    Err(e),
                    Ghost(RequestTrace { first: f, refresh_ok: false, second: None }),
                ),
            }
        } else {
            let r = settle_response(first);
            (r, Ghost(RequestTrace { first: f, refresh_ok: false, second: None }))
        }
    }
}

/// Map an operation's result for a location check: success means the
/// location exists, a missing resource means it does not, and any other
/// error passes through.
pub fn location_outcome<T>(r: Result<T, CheckvistError>) -> (out: Result<bool, CheckvistError>)
    ensures
        match r {
            Ok(_) => out == Ok::<bool, CheckvistError>(true),
            Err(e) => if e.spec_is_resource_not_found() {
                out == Ok::<bool, CheckvistError>(false)
            } else {
                out == Err::<bool, CheckvistError>(e)
            },
        },
{
    match r {
        Ok(_) => Ok(true),
        Err(e) => {
            if e.is_resource_not_found() {
                Ok(false)
            } else {
                Err(e)
            }
        },
    }
}

impl<C: TokenSink> CheckvistClient<C> {
    /// Fetch all of the caller's lists.
    pub fn get_lists(&mut self) -> (r: Result<Vec<Checklist>, CheckvistError>)
        ensures
            final(self).spec_base_url() == old(self).spec_base_url(),
            r == Err::<Vec<Checklist>, CheckvistError>(
                CheckvistError::TokenRefreshFailedError,
            ) ==> final(self).spec_token() == old(self).spec_token(),
            final(self).spec_token() == old(self).spec_token() || some_reply_accepts(
                final(self).spec_token(),
            ),
    {
        let url = self.url_with_path("/checklists.json");
        let rt = self.authed_get(url.as_str());
        let ghost tr = rt.1@;
        let ghost r0 = rt.0;
        proof {
            if outcome_unauthorized(tr.first) {
                if tr.refresh_ok {
                    lemma_settled_error_is_remote(tr.second.unwrap(), r0);
                }
            } else {
                lemma_settled_error_is_remote(tr.first, r0);
            }
        }
        match rt.0 {
            Ok(rb) => {
                let out = resolve_checklists(&rb);
                proof {
                    match &out {
                        Err(e) => lemma_envelope_err_is_remote(rb@, *e),
                        _ => {},
                    }
                }
                out
            },
            Err(e) => Err(e),
        }
    }

    /// Fetch one list by its server id.
    pub fn get_list(&mut self, list_id: u32) -> (r: Result<Checklist, CheckvistError>)
        ensures
            final(self).spec_base_url() == old(self).spec_base_url(),
            r == Err::<Checklist, CheckvistError>(
                CheckvistError::TokenRefreshFailedError,
            ) ==> final(self).spec_token() == old(self).spec_token(),
            final(self).spec_token() == old(self).spec_token() || some_reply_accepts(
                final(self).spec_token(),
            ),
    {
        let url = self.list_url(list_id, ".json");
        let rt = self.authed_get(url.as_str());
        let ghost tr = rt.1@;
        let ghost r0 = rt.0;
        proof {
            if outcome_unauthorized(tr.first) {
                if tr.refresh_ok {
                    lemma_settled_error_is_remote(tr.second.unwrap(), r0);
                }
            } else {
                lemma_settled_error_is_remote(tr.first, r0);
            }
        }
        match rt.0 {
            Ok(rb) => {
                let out = resolve_checklist(&rb);
                proof {
                    match &out {
                        Err(e) => lemma_envelope_err_is_remote(rb@, *e),
                        _ => {},
                    }
                }
                out
            },
            Err(e) => Err(e),
        }
    }

    /// Create a list with the given name; the server's copy comes back.
    pub fn add_list(&mut self, list_name: &str) -> (r: Result<Checklist, CheckvistError>)
        ensures
            final(self).spec_base_url() == old(self).spec_base_url(),
            r == Err::<Checklist, CheckvistError>(
                CheckvistError::TokenRefreshFailedError,
            ) ==> final(self).spec_token() == old(self).spec_token(),
            final(self).spec_token() == old(self).spec_token() || some_reply_accepts(
                final(self).spec_token(),
            ),
    {
        let url = self.url_with_path("/checklists.json");
        let body = add_list_body(list_name);
        let rt = self.authed_post(url.as_str(), &body);
        let ghost tr = rt.1@;
        let ghost r0 = rt.0;
        proof {
            if outcome_unauthorized(tr.first) {
                if tr.refresh_ok {
                    lemma_settled_error_is_remote(tr.second.unwrap(), r0);
                }
            } else {
                lemma_settled_error_is_remote(tr.first, r0);
            }
        }
        match rt.0 {
            Ok(rb) => {
                let out = resolve_checklist(&rb);
                proof {
                    match &out {
                        Err(e) => lemma_envelope_err_is_remote(rb@, *e),
                        _ => {},
                    }
                }
                out
            },
            Err(e) => Err(e),
        }
    }

    /// Fetch the tasks of one list.
    pub fn get_tasks(&mut self, list_id: u32) -> (r: Result<Vec<Task>, CheckvistError>)
        ensures
            final(self).spec_base_url() == old(self).spec_base_url(),
            r == Err::<Vec<Task>, CheckvistError>(
                CheckvistError::TokenRefreshFailedError,
            ) ==> final(self).spec_token() == old(self).spec_token(),
            final(self).spec_token() == old(self).spec_token() || some_reply_accepts(
                final(self).spec_token(),
            ),
    {
        let url = self.list_url(list_id, "/tasks.json");
        let rt = self.authed_get(url.as_str());
        let ghost tr = rt.1@;
        let ghost r0 = rt.0;
        proof {
            if outcome_unauthorized(tr.first) {
                if tr.refresh_ok {
                    lemma_settled_error_is_remote(tr.second.unwrap(), r0);
                }
            } else {
                lemma_settled_error_is_remote(tr.first, r0);
            }
        }
        match rt.0 {
            Ok(rb) => {
                let out = resolve_tasks(&rb);
                proof {
                    match &out {
                        Err(e) => lemma_envelope_err_is_remote(rb@, *e),
                        _ => {},
                    }
                }
                out
            },
            Err(e) => Err(e),
        }
    }

    /// Fetch one task; the service returns it with its ancestor chain.
    pub fn get_task(&mut self, list_id: u32, task_id: u32) -> (r: Result<Vec<Task>, CheckvistError>)
        ensures
            final(self).spec_base_url() == old(self).spec_base_url(),
            r == Err::<Vec<Task>, CheckvistError>(
                CheckvistError::TokenRefreshFailedError,
            ) ==> final(self).spec_token() == old(self).spec_token(),
            final(self).spec_token() == old(self).spec_token() || some_reply_accepts(
                final(self).spec_token(),
            ),
    {
        let url = self.task_url(list_id, task_id);
        let rt = self.authed_get(url.as_str());
        let ghost tr = rt.1@;
        let ghost r0 = rt.0;
        proof {
            if outcome_unauthorized(tr.first) {
                if tr.refresh_ok {
                    lemma_settled_error_is_remote(tr.second.unwrap(), r0);
                }
            } else {
                lemma_settled_error_is_remote(tr.first, r0);
            }
        }
        match rt.0 {
            Ok(rb) => {
                let out = resolve_tasks(&rb);
                proof {
                    match &out {
                        Err(e) => lemma_envelope_err_is_remote(rb@, *e),
                        _ => {},
                    }
                }
                out
            },
            Err(e) => Err(e),
        }
    }

    /// Create a task in the given list; the server's copy, carrying the
    /// assigned id, comes back.
    pub fn add_task(&mut self, list_id: u32, task: &Task) -> (r: Result<Task, CheckvistError>)
        ensures
            final(self).spec_base_url() == old(self).spec_base_url(),
            r == Err::<Task, CheckvistError>(
                CheckvistError::TokenRefreshFailedError,
            ) ==> final(self).spec_token() == old(self).spec_token(),
            final(self).spec_token() == old(self).spec_token() || some_reply_accepts(
                final(self).spec_token(),
            ),
    {
        let url = self.list_url(list_id, "/tasks.json");
        let body = task_to_json(task);
        let rt = self.authed_post(url.as_str(), &body);
        let ghost tr = rt.1@;
        let ghost r0 = rt.0;
        proof {
            if outcome_unauthorized(tr.first) {
                if tr.refresh_ok {
                    lemma_settled_error_is_remote(tr.second.unwrap(), r0);
                }
            } else {
                lemma_settled_error_is_remote(tr.first, r0);
            }
        }
        match rt.0 {
            Ok(rb) => {
                let out = resolve_task(&rb);
                proof {
                    match &out {
                        Err(e) => lemma_envelope_err_is_remote(rb@, *e),
                        _ => {},
                    }
                }
                out
            },
            Err(e) => Err(e),
        }
    }

    /// Whether the location exists: `Ok(true)` when the list (and, when
    /// given, the parent task) can be fetched, `Ok(false)` when the
    /// server reports it missing, any other failure passed through.
    pub fn is_location_valid(&mut self, location: &CheckvistLocation) -> (r: Result<
        bool,
        CheckvistError,
    >)
        ensures
            final(self).spec_base_url() == old(self).spec_base_url(),
            r == Err::<bool, CheckvistError>(CheckvistError::TokenRefreshFailedError)
                ==> final(self).spec_token() == old(self).spec_token(),
            final(self).spec_token() == old(self).spec_token() || some_reply_accepts(
                final(self).spec_token(),
            ),
    {
        match location.parent_task_id {
            None => {
                let inner = self.get_list(location.list_id);
                location_outcome(inner)
            },
            Some(parent_task_id) => {
                let inner = self.get_task(location.list_id, parent_task_id);
                location_outcome(inner)
            },
        }
    }

    /// Exchange a username and API key for a bearer token, once, at
    /// login time. The result is the resolution of whatever reply the
    /// login endpoint gave: `Ok` carries a success reply's token field,
    /// and a failure is always a remote-reported kind.
    pub fn get_token(base_url: &str, username: &str, remote_key: &str) -> (r: Result<
        String,
        CheckvistError,
    >)
        ensures
            exists|o: HttpOutcome| #[trigger] token_reply_resolves(o, r),
            match r {
                Ok(_) => true,
                Err(e) => !(e is TokenRefreshFailedError) && !(e is SqliteError),
            },
    {
        let n = base_url.unicode_len();
        let base = if n > 0 && base_url.get_char(n - 1) == '/' {
            String::from_str(base_url.substring_char(0, n - 1))
        } else {
            String::from_str(base_url)
        };
        let mut url = base;
        url.append("/auth/login.json?version=2");
        let body = login_body(username, remote_key);
        let outcome = http_post_unauthed(url.as_str(), &body);
        let ghost o = outcome;
        let settled_reply = settle_response(outcome);
        let ghost sr = settled_reply;
        match settled_reply {
            Ok(rb) => {
                let out = resolve_token(&rb);
                proof {
                    assert(token_reply_resolves(o, out));
                    match &out {
                        Err(e) => lemma_envelope_err_is_remote(rb@, *e),
                        _ => {},
                    }
                }
                out
            },
            Err(e) => {
                proof {
                    lemma_settled_error_is_remote(o, sr);
                    let ghost ee = e;
                    assert(token_reply_resolves(o, Err::<String, CheckvistError>(ee)));
                }
                Err(e)
            },
        }
    }
}

// ---------------------------------------------------------------------
// Entity resolution of 2xx bodies.
// ---------------------------------------------------------------------

/// A 2xx body expected to hold one list resolves to that list; a body
/// holding the error envelope instead classifies by its message.
pub open spec fn checklist_resolution(body: Seq<u8>, r: Result<Checklist, CheckvistError>) -> bool {
    match spec_checklist_doc(body) {
        Some(d) => if valid_utf8(d.name) {
            match r {
                Ok(c) => cl_matches(c, d),
                Err(_) => false,
            }
        } else {
            envelope_or_decode(body, r)
        },
        None => envelope_or_decode(body, r),
    }
}

/// Resolve a 2xx body as one list.
pub fn resolve_checklist(body: &Vec<u8>) -> (r: Result<Checklist, CheckvistError>)
    ensures
        checklist_resolution(body@, r),
{
    match checklist_from_json(body) {
        Some(c) => Ok(c),
        None => Err(resolve_envelope(body)),
    }
}

/// A 2xx body expected to hold an array of lists.
pub open spec fn checklists_resolution(body: Seq<u8>, r: Result<Vec<Checklist>, CheckvistError>) -> bool {
    match spec_checklists_doc(body) {
        Some(ds) => match r {
            Ok(v) => cl_seq_matches(v@, ds),
            Err(e) => (exists|k: int| 0 <= k < ds.len() && !valid_utf8((#[trigger] ds[k]).name))
                && spec_envelope_err(body, e),
        },
        None => envelope_or_decode(body, r),
    }
}

/// Resolve a 2xx body as an array of lists.
#[verifier::rlimit(100)]
#[verifier::spinoff_prover]
pub fn resolve_checklists(body: &Vec<u8>) -> (r: Result<Vec<Checklist>, CheckvistError>)
    ensures
        checklists_resolution(body@, r),
{
    let ghost doc = spec_checklists_doc(body@);
    match checklists_from_json(body) {
        Some(v) => Ok(v),
        None => Err(resolve_envelope(body)),
    }
}

/// A 2xx body expected to hold one task.
pub open spec fn task_resolution(body: Seq<u8>, r: Result<Task, CheckvistError>) -> bool {
    match spec_task_doc(body) {
        Some(d) => if valid_utf8(d.content) {
            match r {
                Ok(t) => tk_matches(t, d),
                Err(_) => false,
            }
        } else {
            envelope_or_decode(body, r)
        },
        None => envelope_or_decode(body, r),
    }
}

/// Resolve a 2xx body as one task.
pub fn resolve_task(body: &Vec<u8>) -> (r: Result<Task, CheckvistError>)
    ensures
        task_resolution(body@, r),
{
    match task_from_json(body) {
        Some(t) => Ok(t),
        None => Err(resolve_envelope(body)),
    }
}

/// A 2xx body expected to hold an array of tasks.
pub open spec fn tasks_resolution(body: Seq<u8>, r: Result<Vec<Task>, CheckvistError>) -> bool {
    match spec_tasks_doc(body) {
        Some(ds) => match r {
            Ok(v) => tk_seq_matches(v@, ds),
            Err(e) => (exists|k: int|
                0 <= k < ds.len() && !valid_utf8((#[trigger] ds[k]).content))
                && spec_envelope_err(body, e),
        },
        None => envelope_or_decode(body, r),
    }
}

/// Resolve a 2xx body as an array of tasks.
#[verifier::rlimit(100)]
#[verifier::spinoff_prover]
pub fn resolve_tasks(body: &Vec<u8>) -> (r: Result<Vec<Task>, CheckvistError>)
    ensures
        tasks_resolution(body@, r),
{
    let ghost doc = spec_tasks_doc(body@);
    match tasks_from_json(body) {
        Some(v) => Ok(v),
        None => Err(resolve_envelope(body)),
    }
}

/// A 2xx body expected to hold the token envelope.
pub open spec fn token_resolution(body: Seq<u8>, r: Result<String, CheckvistError>) -> bool {
    match spec_sf_doc(body, key_token()) {
        Some(b) => if valid_utf8(b) {
            match r {
                Ok(t) => t@ == decode_utf8(b),
                Err(_) => false,
            }
        } else {
            envelope_or_decode(body, r)
        },
        None => envelope_or_decode(body, r),
    }
}

/// Resolve a 2xx body as the token envelope.
pub fn resolve_token(body: &Vec<u8>) -> (r: Result<String, CheckvistError>)
    ensures
        token_resolution(body@, r),
{
    match token_from_json(body) {
        Some(t) => Ok(t),
        None => Err(resolve_envelope(body)),
    }
}

} // verus!
