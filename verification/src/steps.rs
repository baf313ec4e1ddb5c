//! The handling of one request, cut into steps.
//!
//! Between two steps stands something that only the server can do: read the
//! body of the request, or reach the counter. A step says what that is; the
//! server does it and hands what came of it to the function for it, which
//! gives the next step. The last step of every request is a response.

use vstd::prelude::*;

use crate::page::{countup_page, generate_countup_page, generate_top_page, top_page};
use crate::params::{parse_body, spec_parse_body};
use crate::response::{
    empty_response, response_bad_request, response_not_found, response_page, spec_response_page,
    Response, ResponseView, STATUS_BAD_REQUEST, STATUS_NOT_FOUND,
};
use crate::route::{route, spec_route, Route};
use crate::store::spec_increment_by;

verus! {

/// What the server is to do next for a request.
#[derive(Debug, PartialEq, Eq)]
pub enum Step {
    /// Read the body of the request, and go on with `on_body`.
    ReadBody,
    /// Read the count, and go on with `on_count`.
    ReadCount,
    /// Raise the count by this amount, and go on with `on_raised`.
    Increment(usize),
    /// Send this response. The request is done.
    Respond(Response),
}

/// A step as contracts speak of it.
pub enum StepView {
    /// Read the body of the request.
    ReadBody,
    /// Read the count.
    ReadCount,
    /// Raise the count by this amount.
    Increment(nat),
    /// Send this response.
    Respond(ResponseView),
}

impl View for Step {
    type V = StepView;

    open spec fn view(&self) -> StepView {
        match self {
            Step::ReadBody => StepView::ReadBody,
            Step::ReadCount => StepView::ReadCount,
            Step::Increment(diff) => StepView::Increment(*diff as nat),
            Step::Respond(response) => StepView::Respond(response@),
        }
    }
}

/// The first step for a request with this method and path: `GET /` needs the
/// count, `POST /count-up` needs the body, and anything else gets 404.
pub open spec fn spec_on_request(method: Seq<char>, path: Seq<char>) -> StepView {
    match spec_route(method, path) {
        Route::TopPage => StepView::ReadCount,
        Route::CountUp => StepView::ReadBody,
        Route::NotFound => StepView::Respond(empty_response(STATUS_NOT_FOUND as nat)),
    }
}

/// The step after the body of a count-up request has been read: to raise the
/// count by the amount that the body asks for, or 400 where it asks for
/// nothing.
pub open spec fn spec_on_body(body: Seq<u8>) -> StepView {
    match spec_parse_body(body) {
        Some(diff) => StepView::Increment(diff as nat),
        None => StepView::Respond(empty_response(STATUS_BAD_REQUEST as nat)),
    }
}

/// The step after a count of `n` has been read: the top page for it.
pub open spec fn spec_on_count(n: nat) -> StepView {
    StepView::Respond(spec_response_page(top_page(n)))
}

/// The step after the count has been raised: the count-up page for the count
/// that was reached, or 400 where the sum did not fit.
pub open spec fn spec_on_raised(raised: Option<usize>) -> StepView {
    match raised {
        Some(n) => StepView::Respond(spec_response_page(countup_page(n as nat))),
        None => StepView::Respond(empty_response(STATUS_BAD_REQUEST as nat)),
    }
}

/// The first step for a request with this method and path.
pub fn on_request(method: &str, path: &str) -> (step: Step)
    ensures
        step@ == spec_on_request(method@, path@),
{
    match route(method, path) {
        Route::TopPage => Step::ReadCount,
        Route::CountUp => Step::ReadBody,
        Route::NotFound => Step::Respond(response_not_found()),
    }
}

/// The step after `Step::ReadBody`, for the body that was read.
pub fn on_body(body: &[u8]) -> (step: Step)
    ensures
        step@ == spec_on_body(body@),
{
    match parse_body(body) {
        Some(diff) => Step::Increment(diff),
        None => Step::Respond(response_bad_request()),
    }
}

/// The step after `Step::ReadCount`, for the count that was read.
pub fn on_count(n: usize) -> (step: Step)
    ensures
        step@ == spec_on_count(n as nat),
{
    Step::Respond(response_page(generate_top_page(n)))
}

/// The step after `Step::Increment`, for what `Counter::increment_by` gave.
pub fn on_raised(raised: Option<usize>) -> (step: Step)
    ensures
        step@ == spec_on_raised(raised),
{
    match raised {
        Some(n) => Step::Respond(response_page(generate_countup_page(n))),
        None => Step::Respond(response_bad_request()),
    }
}

/// How many steps may still follow `step`.
pub open spec fn steps_left(step: StepView) -> nat {
    match step {
        StepView::ReadBody => 2,
        StepView::ReadCount => 1,
        StepView::Increment(_) => 1,
        StepView::Respond(_) => 0,
    }
}

/// Where the steps lead from `step`, for a request with this body and a
/// counter at `count`: the count at the end, and the response.
pub open spec fn spec_outcome(count: nat, step: StepView, body: Seq<u8>) -> (nat, ResponseView)
    decreases steps_left(step),
{
    match step {
        StepView::ReadBody => spec_outcome(count, spec_on_body(body), body),
        StepView::ReadCount => spec_outcome(count, spec_on_count(count), body),
        StepView::Increment(diff) => {
            let (raised_count, raised) = spec_increment_by(count, diff);
            spec_outcome(raised_count, spec_on_raised(raised), body)
        },
        StepView::Respond(response) => (count, response),
    }
}

} // verus!
