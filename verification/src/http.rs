//! The plain values that stand for HTTP traffic: what the webhook answered,
//! and what this service answers.

use vstd::prelude::*;

verus! {

pub const STATUS_OK: u16 = 200;

pub const STATUS_NO_CONTENT: u16 = 204;

pub const STATUS_INTERNAL_SERVER_ERROR: u16 = 500;

pub const STATUS_SERVICE_UNAVAILABLE: u16 = 503;

/// How a request to the webhook ended.
#[derive(Debug, Clone, Copy)]
pub enum WebhookOutcome {
    /// The webhook answered, with this status code.
    Responded(u16),
    /// No answer came: the webhook could not be reached, or the exchange
    /// broke off.
    Unreachable,
}

/// An answer of this service: a status code and a body, which may be empty.
#[derive(Debug, PartialEq, Eq)]
pub struct HttpReply {
    pub status: u16,
    pub body: String,
}

/// What an `HttpReply` stands for.
pub struct ReplyView {
    pub status: u16,
    pub body: Seq<char>,
}

impl View for HttpReply {
    type V = ReplyView;

    open spec fn view(&self) -> ReplyView {
        ReplyView { status: self.status, body: self.body@ }
    }
}

/// The status codes by which the webhook accepts a message: 200 to 299.
pub open spec fn is_success_code(code: u16) -> bool {
    200 <= code <= 299
}

/// Tells whether the webhook accepted a message that it answered with
/// `code`.
pub fn is_success(code: u16) -> (accepted: bool)
    ensures
        accepted == is_success_code(code),
{
    200 <= code && code <= 299
}

} // verus!
