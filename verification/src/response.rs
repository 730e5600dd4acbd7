//! Responses, and the producer that turns what the completion signal
//! resolved to into one.

use crate::outcome::{description, outcome_view, Outcome, OutcomeView};
use vstd::prelude::*;
use vstd::string::*;

verus! {

/// Status of a request that was served.
pub const STATUS_OK: u16 = 200;

/// Status of a request that no route matches.
pub const STATUS_NOT_FOUND: u16 = 404;

/// Status of an upload that failed.
pub const STATUS_INTERNAL_SERVER_ERROR: u16 = 500;

/// Body of the greeting.
pub const PROMPT: &'static str = "Try POSTing data to /echo";

/// What the body of a failed upload starts with.
pub const FAILURE_PREFIX: &'static str = "An error occured: ";

/// What stands for the failure where the signal was dropped unsent.
pub const CANCELED: &'static str = "Canceled";

/// A response: status code and body text.
#[derive(Debug, PartialEq, Eq)]
pub struct Response {
    pub status: u16,
    pub body: String,
}

/// What a [`Response`] stands for in contracts.
pub struct ResponseView {
    pub status: u16,
    pub body: Seq<char>,
}

impl View for Response {
    type V = ResponseView;

    open spec fn view(&self) -> ResponseView {
        ResponseView { status: self.status, body: self.body@ }
    }
}

/// The greeting: 200 with the prompt.
pub open spec fn greeting() -> ResponseView {
    ResponseView { status: STATUS_OK, body: PROMPT@ }
}

/// The answer to a request that no route matches: 404 without a body.
pub open spec fn not_found() -> ResponseView {
    ResponseView { status: STATUS_NOT_FOUND, body: Seq::empty() }
}

/// The response to an upload whose completion signal resolved to `signal`,
/// `None` standing for a signal that was dropped with nothing sent: 200
/// without a body for a stored upload, else 500 with the failure described.
pub open spec fn response_for(signal: Option<OutcomeView>) -> ResponseView {
    match signal {
        Some(Ok(_)) => ResponseView { status: STATUS_OK, body: Seq::empty() },
        Some(Err(error)) => ResponseView {
            status: STATUS_INTERNAL_SERVER_ERROR,
            body: FAILURE_PREFIX@ + description(error),
        },
        None => ResponseView {
            status: STATUS_INTERNAL_SERVER_ERROR,
            body: FAILURE_PREFIX@ + CANCELED@,
        },
    }
}

/// The view of what a completion signal resolved to.
pub open spec fn signal_view(signal: Option<Outcome>) -> Option<OutcomeView> {
    match signal {
        Some(outcome) => Some(outcome_view(outcome)),
        None => None,
    }
}

impl Response {
    /// The greeting.
    pub fn greeting() -> (response: Response)
        ensures
            response@ == greeting(),
    {
        Response { status: STATUS_OK, body: String::from_str(PROMPT) }
    }

    /// The answer to a request that no route matches.
    pub fn not_found() -> (response: Response)
        ensures
            response@ == not_found(),
    {
        Response { status: STATUS_NOT_FOUND, body: String::new() }
    }
}

/// Produces the response to an upload from what its completion signal
/// resolved to. Never fails, and reports the outcome as it was received.
pub fn respond(signal: Option<Outcome>) -> (response: Response)
    ensures
        response@ == response_for(signal_view(signal)),
{
    match signal {
        Some(Ok(_)) => Response { status: STATUS_OK, body: String::new() },
        Some(Err(error)) => {
            let mut body = String::from_str(FAILURE_PREFIX);
            let text = error.describe();
            body.append(text.as_str());
            Response { status: STATUS_INTERNAL_SERVER_ERROR, body }
        },
        None => {
            let mut body = String::from_str(FAILURE_PREFIX);
            body.append(CANCELED);
            Response { status: STATUS_INTERNAL_SERVER_ERROR, body }
        },
    }
}

} // verus!
