//! The endpoint handlers: exact routing, per-endpoint argument handling,
//! and the response each endpoint decides on. The transport stays with the
//! caller: it hands in the method, path, query string and declared content
//! length, performs the waits the returned decisions ask for, and streams
//! the bodies.

use vstd::prelude::*;
use crate::config::Config;
use crate::forwarder::Forwarder;
use crate::query::{
    parse_query_pairs, query_id, query_id_and_secret, query_length, query_pairs_of,
    spec_query_id, spec_query_id_secret, spec_query_length, QueryIdError, QueryIdSecretError,
    QueryLengthError,
};
use crate::registry::{
    handles_inv, handles_of, new_transfer_view, popped_view, queued_view, PopOutcome, Registry,
    RetireOutcome, TransferView, UploadOutcome,
};
use crate::response::{
    html_response, not_found_response, text_response, ContentType, HttpResponse, ResponseBody,
};
use crate::text::str_eq;
use crate::token::is_token;

verus! {

/// The request methods the relay distinguishes.
#[derive(Clone, Copy, PartialEq, Eq, Structural, Debug)]
pub enum Method {
    Get,
    Post,
    Other,
}

/// The routes the relay serves, by exact method and path.
#[derive(Clone, Copy, PartialEq, Eq, Structural, Debug)]
pub enum Route {
    /// `GET /`: the uploader page (a fixed blob the transport owns).
    Home,
    /// `GET /favicon.ico`: a fixed blob the transport owns.
    Favicon,
    /// `GET /client.js`: a fixed blob the transport owns.
    ClientJs,
    /// `POST /1/id/request`
    RequestId,
    /// `POST /1/id/retire`
    RetireId,
    /// `POST /1/file/upload`
    Upload,
    /// `GET /1/file/download`
    Download,
    /// `GET /dump`
    Dump,
    /// Anything else.
    NotFound,
}

/// Exact method+path dispatch; anything else is `NotFound`.
pub open spec fn spec_route(m: Method, path: Seq<char>) -> Route {
    if m == Method::Get && path == "/"@ {
        Route::Home
    } else if m == Method::Get && path == "/favicon.ico"@ {
        Route::Favicon
    } else if m == Method::Get && path == "/client.js"@ {
        Route::ClientJs
    } else if m == Method::Post && path == "/1/id/request"@ {
        Route::RequestId
    } else if m == Method::Post && path == "/1/id/retire"@ {
        Route::RetireId
    } else if m == Method::Post && path == "/1/file/upload"@ {
        Route::Upload
    } else if m == Method::Get && path == "/1/file/download"@ {
        Route::Download
    } else if m == Method::Get && path == "/dump"@ {
        Route::Dump
    } else {
        Route::NotFound
    }
}

/// Route one request.
pub fn route_of(m: Method, path: &str) -> (r: Route)
    ensures
        r == spec_route(m, path@),
{
    match m {
        Method::Get => {
            if str_eq(path, "/") {
                Route::Home
            } else if str_eq(path, "/favicon.ico") {
                Route::Favicon
            } else if str_eq(path, "/client.js") {
                Route::ClientJs
            } else if str_eq(path, "/1/file/download") {
                Route::Download
            } else if str_eq(path, "/dump") {
                Route::Dump
            } else {
                Route::NotFound
            }
        },
        Method::Post => {
            if str_eq(path, "/1/id/request") {
                Route::RequestId
            } else if str_eq(path, "/1/id/retire") {
                Route::RetireId
            } else if str_eq(path, "/1/file/upload") {
                Route::Upload
            } else {
                Route::NotFound
            }
        },
        Method::Other => Route::NotFound,
    }
}

/// The decoded pairs of an optional query string: a request without a query
/// decodes to no pairs.
pub open spec fn pairs_of_query(q: Option<&str>) -> Seq<(Seq<char>, Seq<char>)> {
    match q {
        Some(s) => query_pairs_of(s@),
        None => Seq::empty(),
    }
}

fn decoded_pairs(query: Option<&str>) -> (r: Vec<(String, String)>)
    ensures
        r.deep_view() == pairs_of_query(query),
{
    match query {
        Some(s) => parse_query_pairs(s),
        None => {
            let r: Vec<(String, String)> = Vec::new();
            proof {
                assert(r.deep_view() =~= pairs_of_query(query));
            }
            r
        },
    }
}

/// The exact 400 the download endpoint words for a failed id extraction.
pub open spec fn is_id_error_response(r: HttpResponse, e: QueryIdError) -> bool {
    &&& r.status == 400
    &&& r.content_type == ContentType::TextHtml
    &&& r.body matches ResponseBody::Text(t) && t@ == (match e {
        QueryIdError::UnsupportedArgument => "<b>Supported arguments id \"id\"</b>"@,
        QueryIdError::MissingId => "<b>Id missing</b>"@,
    })
}

/// The exact 400 the retire and upload endpoints word for a failed
/// id/secret extraction.
pub open spec fn is_id_secret_error_response(r: HttpResponse, e: QueryIdSecretError) -> bool {
    &&& r.status == 400
    &&& r.content_type == ContentType::TextPlain
    &&& r.body matches ResponseBody::Text(t) && t@ == (match e {
        QueryIdSecretError::UnsupportedArgument => "Supported arguments are \"id\" and \"secret\""@,
        QueryIdSecretError::MissingId => "Missing id"@,
        QueryIdSecretError::MissingSecret => "Missing secret"@,
    })
}

/// The exact 400 the request endpoint words for a failed length extraction.
pub open spec fn is_length_error_response(r: HttpResponse, e: QueryLengthError) -> bool {
    &&& r.status == 400
    &&& r.content_type == ContentType::TextPlain
    &&& r.body matches ResponseBody::Text(t) && t@ == (match e {
        QueryLengthError::UnsupportedArgument => "Supported argument is \"length\""@,
        QueryLengthError::MissingLength => "Expected argument \"length\""@,
        QueryLengthError::NotDecimal => "\"length\" should be a decimal integer"@,
        QueryLengthError::TooLong => "Content is too long"@,
    })
}

/// Serve `POST /1/id/request`: create a transfer for the declared length
/// and answer `"<id>,<secret>"`. A malformed or oversized `length` earns
/// the exact 400 its check names.
///
/// The one deliberate deviation from regenerating endlessly on identifier
/// collisions: the registry redraws a bounded number of times so that every
/// call terminates, and this endpoint answers 503 — a status it otherwise
/// never uses — should all draws collide. That needs every draw to hit an
/// already-registered identifier: impossible on an empty registry (the
/// contract says so), and at the default token length (58^10 identifiers
/// per draw) never seen in practice.
pub fn service_request_id(reg: &mut Registry, query: Option<&str>, now: u64, cfg: &Config) -> (r:
    HttpResponse)
    requires
        old(reg).wf(),
        handles_inv(old(reg)@),
        now + cfg.timeout_secs <= u64::MAX,
    ensures
        final(reg).wf(),
        handles_inv(final(reg)@),
        final(reg)@.next_handle == old(reg)@.next_handle,
        ({
            let pairs = pairs_of_query(query);
            match spec_query_length(pairs, true, cfg.max_content_length) {
                Err(e) => is_length_error_response(r, e) && final(reg)@ == old(reg)@,
                Ok(length) => {
                    ||| (exists|id: Seq<char>, secret: Seq<char>|
                        #![trigger is_token(id, cfg.token_length as int), is_token(secret, cfg.token_length as int)]
                        {
                            &&& is_token(id, cfg.token_length as int)
                            &&& is_token(secret, cfg.token_length as int)
                            &&& !old(reg)@.transfers.dom().contains(id)
                            &&& final(reg)@.transfers == old(reg)@.transfers.insert(
                                id,
                                new_transfer_view(secret, length, now, cfg),
                            )
                            &&& r.status == 200
                            &&& r.content_type == ContentType::TextPlain
                            &&& r.body matches ResponseBody::Text(t) && t@ == id + ","@ + secret
                        })
                    ||| (r.status == 503 && final(reg)@.transfers == old(reg)@.transfers && old(
                        reg,
                    )@.transfers.dom() != Set::<Seq<char>>::empty())
                },
            }
        }),
{
    let pairs = decoded_pairs(query);
    let length = match query_length(&pairs, true, cfg) {
        Ok(l) => l,
        Err(QueryLengthError::UnsupportedArgument) => {
            return text_response(400, "Supported argument is \"length\"".to_owned());
        },
        Err(QueryLengthError::MissingLength) => {
            return text_response(400, "Expected argument \"length\"".to_owned());
        },
        Err(QueryLengthError::NotDecimal) => {
            return text_response(400, "\"length\" should be a decimal integer".to_owned());
        },
        Err(QueryLengthError::TooLong) => {
            return text_response(400, "Content is too long".to_owned());
        },
    };
    match reg.request_id(length, now, cfg) {
        Some((id, secret)) => {
            let body = id.clone().concat(",").concat(secret.as_str());
            let r = text_response(200, body);
            proof {
                assert(is_token(id@, cfg.token_length as int));
            }
            r
        },
        None => text_response(503, "No identifier available".to_owned()),
    }
}

/// Serve `POST /1/id/retire`: remove the transfer when the secret matches
/// its capability, answering exactly 200 "Removed", 403 "Bad secret" or
/// 404 "Unknown id". Queued pipes fall with the record: the returned
/// handles name them exactly, and the caller must release their inbound
/// bodies and completion senders, which cancels each waiting uploader.
pub fn service_retire_id(reg: &mut Registry, query: Option<&str>) -> (r: (HttpResponse, Vec<u64>))
    requires
        old(reg).wf(),
        handles_inv(old(reg)@),
    ensures
        final(reg).wf(),
        handles_inv(final(reg)@),
        final(reg)@.next_handle == old(reg)@.next_handle,
        ({
            let pairs = pairs_of_query(query);
            match spec_query_id_secret(pairs, true) {
                Err(e) => is_id_secret_error_response(r.0, e) && final(reg)@ == old(reg)@ && r.1@
                    == Seq::<u64>::empty(),
                Ok((id, secret)) => {
                    if !old(reg)@.transfers.dom().contains(id) {
                        &&& r.0.status == 404
                        &&& r.0.content_type == ContentType::TextPlain
                        &&& r.0.body matches ResponseBody::Text(t) && t@ == "Unknown id"@
                        &&& final(reg)@ == old(reg)@
                        &&& r.1@ == Seq::<u64>::empty()
                    } else if old(reg)@.transfers[id].secret != secret {
                        &&& r.0.status == 403
                        &&& r.0.content_type == ContentType::TextPlain
                        &&& r.0.body matches ResponseBody::Text(t) && t@ == "Bad secret"@
                        &&& final(reg)@ == old(reg)@
                        &&& r.1@ == Seq::<u64>::empty()
                    } else {
                        &&& r.0.status == 200
                        &&& r.0.content_type == ContentType::TextPlain
                        &&& r.0.body matches ResponseBody::Text(t) && t@ == "Removed"@
                        &&& final(reg)@.transfers == old(reg)@.transfers.remove(id)
                        &&& r.1@ == handles_of(old(reg)@.transfers[id].uploaders)
                    }
                },
            }
        }),
{
    let pairs = decoded_pairs(query);
    let (id, secret) = match query_id_and_secret(&pairs, true) {
        Ok(p) => p,
        Err(QueryIdSecretError::UnsupportedArgument) => {
            return (
                text_response(400, "Supported arguments are \"id\" and \"secret\"".to_owned()),
                Vec::new(),
            );
        },
        Err(QueryIdSecretError::MissingId) => {
            return (text_response(400, "Missing id".to_owned()), Vec::new());
        },
        Err(QueryIdSecretError::MissingSecret) => {
            return (text_response(400, "Missing secret".to_owned()), Vec::new());
        },
    };
    let (outcome, dropped) = reg.retire_id(&id, &secret);
    match outcome {
        RetireOutcome::Removed => (text_response(200, "Removed".to_owned()), dropped),
        RetireOutcome::BadSecret => (text_response(403, "Bad secret".to_owned()), dropped),
        RetireOutcome::UnknownId => (text_response(404, "Unknown id".to_owned()), dropped),
    }
}

/// What the upload endpoint decided.
pub enum UploadDecision {
    /// Answer immediately.
    Respond(HttpResponse),
    /// The pipe is queued: the caller parks the request body and the
    /// completion sender under this handle, awaits the signal, and answers
    /// with `upload_wait_outcome`.
    Await(u64),
}

/// Serve `POST /1/file/upload`: queue the uploader's pipe on its transfer.
/// The declared `Content-Length` must be present (411), within bounds
/// (413), and exactly the transfer's length (400); the identifier must be
/// known (404) and the secret right (403).
pub fn service_upload(
    reg: &mut Registry,
    query: Option<&str>,
    content_length: Option<u64>,
    cfg: &Config,
) -> (r: UploadDecision)
    requires
        old(reg).wf(),
        handles_inv(old(reg)@),
        old(reg)@.next_handle < u64::MAX,
    ensures
        final(reg).wf(),
        handles_inv(final(reg)@),
        ({
            let pairs = pairs_of_query(query);
            match spec_query_id_secret(pairs, true) {
                Err(e) => r matches UploadDecision::Respond(resp) && is_id_secret_error_response(
                    resp,
                    e,
                ) && final(reg)@ == old(reg)@,
                Ok((id, secret)) => match content_length {
                    None => r matches UploadDecision::Respond(resp) && resp.status == 411
                        && resp.content_type == ContentType::TextPlain && (
                    resp.body matches ResponseBody::Text(t) && t@
                        == "Content-Length must be specified"@) && final(reg)@ == old(reg)@,
                    Some(l) => {
                        if l > cfg.max_content_length {
                            r matches UploadDecision::Respond(resp) && resp.status == 413
                                && resp.content_type == ContentType::TextPlain && (
                            resp.body matches ResponseBody::Text(t) && t@
                                == "Content is too long"@) && final(reg)@ == old(reg)@
                        } else if !old(reg)@.transfers.dom().contains(id) {
                            r matches UploadDecision::Respond(resp) && resp.status == 404
                                && resp.content_type == ContentType::TextPlain && (
                            resp.body matches ResponseBody::Text(t) && t@ == "Unknown id"@)
                                && final(reg)@ == old(reg)@
                        } else if old(reg)@.transfers[id].secret != secret {
                            r matches UploadDecision::Respond(resp) && resp.status == 403
                                && resp.content_type == ContentType::TextPlain && (
                            resp.body matches ResponseBody::Text(t) && t@ == "Bad secret"@)
                                && final(reg)@ == old(reg)@
                        } else if l != old(reg)@.transfers[id].length {
                            r matches UploadDecision::Respond(resp) && resp.status == 400
                                && resp.content_type == ContentType::TextPlain && (
                            resp.body matches ResponseBody::Text(t) && t@ == "Wrong length"@)
                                && final(reg)@ == old(reg)@
                        } else {
                            &&& r == UploadDecision::Await(old(reg)@.next_handle)
                            &&& final(reg)@.next_handle == old(reg)@.next_handle + 1
                            &&& final(reg)@.transfers == old(reg)@.transfers.insert(
                                id,
                                queued_view(old(reg)@.transfers[id], old(reg)@.next_handle),
                            )
                        }
                    },
                },
            }
        }),
{
    let pairs = decoded_pairs(query);
    let (id, secret) = match query_id_and_secret(&pairs, true) {
        Ok(p) => p,
        Err(QueryIdSecretError::UnsupportedArgument) => {
            return UploadDecision::Respond(
                text_response(400, "Supported arguments are \"id\" and \"secret\"".to_owned()),
            );
        },
        Err(QueryIdSecretError::MissingId) => {
            return UploadDecision::Respond(text_response(400, "Missing id".to_owned()));
        },
        Err(QueryIdSecretError::MissingSecret) => {
            return UploadDecision::Respond(text_response(400, "Missing secret".to_owned()));
        },
    };
    match reg.upload(&id, &secret, content_length, cfg) {
        UploadOutcome::Queued(h) => UploadDecision::Await(h),
        UploadOutcome::MissingLength => UploadDecision::Respond(
            text_response(411, "Content-Length must be specified".to_owned()),
        ),
        UploadOutcome::TooLarge => UploadDecision::Respond(
            text_response(413, "Content is too long".to_owned()),
        ),
        UploadOutcome::UnknownId => UploadDecision::Respond(
            text_response(404, "Unknown id".to_owned()),
        ),
        UploadOutcome::BadSecret => UploadDecision::Respond(
            text_response(403, "Bad secret".to_owned()),
        ),
        UploadOutcome::WrongLength => UploadDecision::Respond(
            text_response(400, "Wrong length".to_owned()),
        ),
    }
}

/// Parse the download query: the transfer identifier, or the exact 400.
pub fn download_query(query: Option<&str>) -> (r: Result<String, HttpResponse>)
    ensures
        ({
            let pairs = pairs_of_query(query);
            match spec_query_id(pairs, true) {
                Ok(id) => r matches Ok(s) && s@ == id,
                Err(e) => r matches Err(resp) && is_id_error_response(resp, e),
            }
        }),
{
    let pairs = decoded_pairs(query);
    match query_id(&pairs, true) {
        Ok(id) => Ok(id),
        Err(QueryIdError::UnsupportedArgument) => Err(
            html_response(400, "<b>Supported arguments id \"id\"</b>".to_owned()),
        ),
        Err(QueryIdError::MissingId) => Err(html_response(400, "<b>Id missing</b>".to_owned())),
    }
}

/// What one download attempt decided.
pub enum DownloadStep {
    /// No such transfer: answer 404 now, with no retries.
    NotFound(HttpResponse),
    /// The front-most queued pipe, removed from the queue. The caller
    /// checks whether its uploader is still connected, then either accepts
    /// it ([`accept_download`]) or drops it and retries.
    Candidate(Forwarder),
    /// Nothing queued at the moment: retry after the configured delay.
    Empty,
}

/// One download attempt: dequeue the front-most uploader pipe under `id`.
pub fn download_attempt(reg: &mut Registry, id: &String) -> (r: DownloadStep)
    requires
        old(reg).wf(),
        handles_inv(old(reg)@),
    ensures
        final(reg).wf(),
        handles_inv(final(reg)@),
        final(reg)@.next_handle == old(reg)@.next_handle,
        match r {
            DownloadStep::NotFound(resp) => {
                &&& !old(reg)@.transfers.dom().contains(id@)
                &&& final(reg)@ == old(reg)@
                &&& resp.status == 404
                &&& resp.content_type == ContentType::TextHtml
                &&& resp.body matches ResponseBody::Text(t) && t@ == "<b>Unknown id</b>"@
            },
            DownloadStep::Empty => {
                &&& old(reg)@.transfers.dom().contains(id@)
                &&& old(reg)@.transfers[id@].uploaders.len() == 0
                &&& final(reg)@ == old(reg)@
            },
            DownloadStep::Candidate(f) => {
                &&& old(reg)@.transfers.dom().contains(id@)
                &&& old(reg)@.transfers[id@].uploaders.len() > 0
                &&& f == old(reg)@.transfers[id@].uploaders[0]
                &&& final(reg)@.transfers == old(reg)@.transfers.insert(
                    id@,
                    popped_view(old(reg)@.transfers[id@]),
                )
                &&& forall|j: int|
                    0 <= j < final(reg)@.transfers[id@].uploaders.len() ==> (#[trigger] final(
                        reg)@.transfers[id@].uploaders[j]).handle != f.handle
            },
        },
{
    match reg.pop_uploader(id) {
        PopOutcome::UnknownId => DownloadStep::NotFound(
            html_response(404, "<b>Unknown id</b>".to_owned()),
        ),
        PopOutcome::NoUploader => DownloadStep::Empty,
        PopOutcome::Popped(f) => DownloadStep::Candidate(f),
    }
}

/// Accept a pipe whose uploader is still connected: push the transfer's
/// expiration out and answer 200 streaming the pipe as the body.
pub fn accept_download(
    reg: &mut Registry,
    id: &String,
    fwd: Forwarder,
    now: u64,
    cfg: &Config,
) -> (r: HttpResponse)
    requires
        old(reg).wf(),
        handles_inv(old(reg)@),
        now + cfg.timeout_secs <= u64::MAX,
    ensures
        final(reg).wf(),
        handles_inv(final(reg)@),
        final(reg)@.next_handle == old(reg)@.next_handle,
        r.status == 200,
        r.content_type == ContentType::TextPlain,
        r.body == ResponseBody::Stream(fwd),
        old(reg)@.transfers.dom().contains(id@) ==> final(reg)@.transfers == old(
            reg,
        )@.transfers.insert(
            id@,
            TransferView {
                expiration: (now + cfg.timeout_secs) as u64,
                ..old(reg)@.transfers[id@]
            },
        ),
        !old(reg)@.transfers.dom().contains(id@) ==> final(reg)@ == old(reg)@,
{
    let _found = reg.refresh_expiration(id, now, cfg);
    HttpResponse {
        status: 200,
        content_type: ContentType::TextPlain,
        body: ResponseBody::Stream(fwd),
    }
}

/// What to do with a dequeued pipe, once the caller has checked whether its
/// completion receiver is still connected.
pub enum CandidateDecision {
    /// The uploader is still there: refresh the expiration and stream the
    /// pipe ([`accept_download`]).
    Accept(Forwarder),
    /// The uploader is gone (a stale upload): discard the pipe and examine
    /// the next queued one within the same attempt, without spending a
    /// retry or a delay on it.
    Skip,
}

/// Decide a dequeued pipe's fate: a live uploader is accepted, a canceled
/// one skipped in favour of the next queued pipe.
pub fn screen_candidate(fwd: Forwarder, canceled: bool) -> (r: CandidateDecision)
    ensures
        !canceled ==> r == CandidateDecision::Accept(fwd),
        canceled ==> r == CandidateDecision::Skip,
{
    if canceled {
        CandidateDecision::Skip
    } else {
        CandidateDecision::Accept(fwd)
    }
}

/// What to do after an attempt found no live uploader.
pub enum RetryDecision {
    /// Wait `delay_ms`, then attempt again with `retries_left` retries
    /// still in hand.
    RetryAfter { delay_ms: u64, retries_left: u64 },
    /// No retries left: answer 503.
    GiveUp(HttpResponse),
}

/// The retry policy of the download endpoint: after the configured delay,
/// re-enter while retries remain, else give up with 503. The transfer
/// itself stays, so a later downloader can still succeed.
pub fn download_retry(retries_left: u64, cfg: &Config) -> (r: RetryDecision)
    ensures
        retries_left > 0 ==> r == (RetryDecision::RetryAfter {
            delay_ms: cfg.download_retry_ms,
            retries_left: (retries_left - 1) as u64,
        }),
        retries_left == 0 ==> (r matches RetryDecision::GiveUp(resp) && resp.status == 503
            && resp.content_type == ContentType::TextHtml && (
        resp.body matches ResponseBody::Text(t) && t@
            == "<b>No uploader currently available</b>"@)),
{
    if retries_left > 0 {
        RetryDecision::RetryAfter {
            delay_ms: cfg.download_retry_ms,
            retries_left: retries_left - 1,
        }
    } else {
        RetryDecision::GiveUp(
            html_response(503, "<b>No uploader currently available</b>".to_owned()),
        )
    }
}

/// Serve `GET /dump`: answers like an unknown route. A debugging build of
/// the transport first writes the rows of [`Registry::snapshot`] to
/// standard error; a release build writes nothing.
pub fn service_dump() -> (r: HttpResponse)
    ensures
        r.status == 404,
        r.content_type == ContentType::TextHtml,
        r.body matches ResponseBody::Text(t) && t@ == "<b>404 Not Found</b>"@,
{
    not_found_response()
}

} // verus!
