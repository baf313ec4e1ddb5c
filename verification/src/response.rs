//! Responses, as plain values: a status, the two headers that a page
//! carries, and a body.

use vstd::prelude::*;
use vstd::string::*;
use vstd::utf8::encode_utf8;

verus! {

/// The status of a response that carries a page.
pub const STATUS_OK: u16 = 200;

/// The status of a response to a count-up request that cannot be honoured.
pub const STATUS_BAD_REQUEST: u16 = 400;

/// The status of a response to a request that no route takes.
pub const STATUS_NOT_FOUND: u16 = 404;

/// The content type of a page.
pub const CONTENT_TYPE_HTML: &'static str = "text/html";

/// What is sent back for one request.
#[derive(Debug, PartialEq, Eq)]
pub struct Response {
    /// The status code.
    pub status: u16,
    /// The `Content-Type` header, if the response has one.
    pub content_type: Option<String>,
    /// The `Content-Length` header, if the response has one.
    pub content_length: Option<usize>,
    /// The body.
    pub body: String,
}

/// A response as contracts speak of it.
pub struct ResponseView {
    /// The status code.
    pub status: nat,
    /// The `Content-Type` header, if the response has one.
    pub content_type: Option<Seq<char>>,
    /// The `Content-Length` header, if the response has one.
    pub content_length: Option<nat>,
    /// The body.
    pub body: Seq<char>,
}

impl View for Response {
    type V = ResponseView;

    open spec fn view(&self) -> ResponseView {
        ResponseView {
            status: self.status as nat,
            content_type: match self.content_type {
                Some(content_type) => Some(content_type@),
                None => None,
            },
            content_length: match self.content_length {
                Some(length) => Some(length as nat),
                None => None,
            },
            body: self.body@,
        }
    }
}

/// How many bytes `text` takes when sent, which is as UTF-8.
pub open spec fn byte_len(text: Seq<char>) -> nat {
    encode_utf8(text).len()
}

/// The response that carries the page `html`: status 200, content type
/// `text/html`, and a content length of exactly the bytes of `html`.
pub open spec fn spec_response_page(html: Seq<char>) -> ResponseView {
    ResponseView {
        status: STATUS_OK as nat,
        content_type: Some(CONTENT_TYPE_HTML@),
        content_length: Some(byte_len(html)),
        body: html,
    }
}

/// The response with `status`, no headers and an empty body.
pub open spec fn empty_response(status: nat) -> ResponseView {
    ResponseView { status, content_type: None, content_length: None, body: Seq::empty() }
}

/// The response that carries the page `html`.
pub fn response_page(html: String) -> (response: Response)
    ensures
        response@ == spec_response_page(html@),
{
    let length = html.as_str().as_bytes().len();
    Response {
        status: STATUS_OK,
        content_type: Some(String::from_str(CONTENT_TYPE_HTML)),
        content_length: Some(length),
        body: html,
    }
}

/// The response to a count-up request that cannot be honoured: status 400,
/// no headers, empty body.
pub fn response_bad_request() -> (response: Response)
    ensures
        response@ == empty_response(STATUS_BAD_REQUEST as nat),
{
    Response {
        status: STATUS_BAD_REQUEST,
        content_type: None,
        content_length: None,
        body: String::new(),
    }
}

/// The response to a request that no route takes: status 404, no headers,
/// empty body.
pub fn response_not_found() -> (response: Response)
    ensures
        response@ == empty_response(STATUS_NOT_FOUND as nat),
{
    Response {
        status: STATUS_NOT_FOUND,
        content_type: None,
        content_length: None,
        body: String::new(),
    }
}

} // verus!
