//! The response shape every endpoint produces: a status, a content type,
//! and a body that is either fixed text or the downloader side of a pipe.
//! Unifying the body under one sum type lets the transport treat every
//! endpoint alike.

use vstd::prelude::*;
use crate::forwarder::Forwarder;

verus! {

/// The content types the engine emits. The transport maps each to its
/// header value via [`ContentType::header_value`].
#[derive(Clone, Copy, PartialEq, Eq, Structural, Debug)]
pub enum ContentType {
    TextPlain,
    TextHtml,
}

impl ContentType {
    /// The exact `Content-Type` header value.
    pub fn header_value(&self) -> (s: &'static str)
        ensures
            *self == ContentType::TextPlain ==> s@ == "text/plain; charset=utf-8"@,
            *self == ContentType::TextHtml ==> s@ == "text/html; charset=utf-8"@,
    {
        match self {
            ContentType::TextPlain => "text/plain; charset=utf-8",
            ContentType::TextHtml => "text/html; charset=utf-8",
        }
    }
}

/// A response body: fixed text, or a live pipe streaming an uploader's
/// bytes. The pipe's declared content length comes from
/// [`Forwarder::content_length`]; a text body's framing is the transport's.
pub enum ResponseBody {
    Text(String),
    Stream(Forwarder),
}

/// One HTTP response the engine decided on.
pub struct HttpResponse {
    pub status: u16,
    pub content_type: ContentType,
    pub body: ResponseBody,
}

/// A plain-text response with the given status.
pub fn text_response(status: u16, body: String) -> (r: HttpResponse)
    ensures
        r.status == status,
        r.content_type == ContentType::TextPlain,
        r.body matches ResponseBody::Text(t) && t@ == body@,
{
    HttpResponse { status, content_type: ContentType::TextPlain, body: ResponseBody::Text(body) }
}

/// An HTML response with the given status.
pub fn html_response(status: u16, body: String) -> (r: HttpResponse)
    ensures
        r.status == status,
        r.content_type == ContentType::TextHtml,
        r.body matches ResponseBody::Text(t) && t@ == body@,
{
    HttpResponse { status, content_type: ContentType::TextHtml, body: ResponseBody::Text(body) }
}

/// The response the pipe hands the uploader when the last byte has been
/// relayed.
pub fn completion_response() -> (r: HttpResponse)
    ensures
        r.status == 200,
        r.content_type == ContentType::TextPlain,
        r.body matches ResponseBody::Text(t) && t@ == "Sent!"@,
{
    text_response(200, "Sent!".to_owned())
}

/// What the upload endpoint answers once its wait on the completion signal
/// ends: the signalled response if one arrived, or the internal-error
/// equivalent when the downloader vanished first and the signal was
/// canceled.
pub fn upload_wait_outcome(completed: Option<HttpResponse>) -> (r: HttpResponse)
    ensures
        match completed {
            Some(resp) => r == resp,
            None => {
                &&& r.status == 500
                &&& r.content_type == ContentType::TextPlain
                &&& r.body matches ResponseBody::Text(t) && t@ == "BAD NEWS"@
            },
        },
{
    match completed {
        Some(resp) => resp,
        None => text_response(500, "BAD NEWS".to_owned()),
    }
}

/// The answer for any route the relay does not serve.
pub fn not_found_response() -> (r: HttpResponse)
    ensures
        r.status == 404,
        r.content_type == ContentType::TextHtml,
        r.body matches ResponseBody::Text(t) && t@ == "<b>404 Not Found</b>"@,
{
    html_response(404, "<b>404 Not Found</b>".to_owned())
}

} // verus!
