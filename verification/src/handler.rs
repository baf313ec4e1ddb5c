//! The request handler: what one request does to the counter, and what is
//! sent back for it.

use vstd::prelude::*;

use crate::page::{countup_page, top_page};
use crate::params::spec_parse_body;
use crate::response::{
    byte_len, empty_response, spec_response_page, Response, ResponseView, CONTENT_TYPE_HTML,
    STATUS_BAD_REQUEST, STATUS_NOT_FOUND, STATUS_OK,
};
use crate::route::{
    lemma_routes, spec_route, Route, METHOD_GET, METHOD_POST, PATH_COUNT_UP, PATH_TOP,
};
use crate::steps::{
    on_body, on_count, on_raised, on_request, spec_on_request, spec_outcome, steps_left, Step,
};
use crate::store::Counter;

verus! {

/// What one request does: the count after it, and the response to it.
///
/// `GET /` shows the count and leaves it. `POST /count-up` adds the amount
/// that the body asks for and shows the new count; where the body asks for
/// nothing, or the sum would not fit in a `usize`, the count stays and the
/// response is 400. Any other request leaves the count and gets 404.
pub open spec fn spec_counter(count: nat, method: Seq<char>, path: Seq<char>, body: Seq<u8>) -> (
    nat,
    ResponseView,
) {
    match spec_route(method, path) {
        Route::TopPage => (count, spec_response_page(top_page(count))),
        Route::CountUp => match spec_parse_body(body) {
            Some(diff) if count + diff <= usize::MAX => (
                count + diff as nat,
                spec_response_page(countup_page(count + diff as nat)),
            ),
            _ => (count, empty_response(STATUS_BAD_REQUEST as nat)),
        },
        Route::NotFound => (count, empty_response(STATUS_NOT_FOUND as nat)),
    }
}

/// Step by step, a request is served as `spec_counter` says.
pub proof fn lemma_steps_serve(count: nat, method: Seq<char>, path: Seq<char>, body: Seq<u8>)
    ensures
        spec_outcome(count, spec_on_request(method, path), body) == spec_counter(
            count,
            method,
            path,
            body,
        ),
{
    reveal_with_fuel(spec_outcome, 4);
}

/// Serves one request against `count`, step by step.
pub fn counter(count: &mut Counter, method: &str, path: &str, body: &[u8]) -> (response: Response)
    ensures
        final(count)@ == spec_counter(old(count)@, method@, path@, body@).0,
        response@ == spec_counter(old(count)@, method@, path@, body@).1,
{
    let mut step = on_request(method, path);
    proof {
        lemma_steps_serve(count@, method@, path@, body@);
    }
    loop
        invariant
            spec_outcome(count@, step@, body@) == spec_counter(
                old(count)@,
                method@,
                path@,
                body@,
            ),
        decreases steps_left(step@),
    {
        step = match step {
            Step::ReadBody => on_body(body),
            Step::ReadCount => on_count(count.read()),
            Step::Increment(diff) => on_raised(count.increment_by(diff)),
            Step::Respond(response) => {
                return response;
            },
        };
    }
}

/// A request as contracts speak of it.
pub struct RequestView {
    /// The method, as it stands in the request line.
    pub method: Seq<char>,
    /// The path, without the query.
    pub path: Seq<char>,
    /// The body, as the bytes that arrived.
    pub body: Seq<u8>,
}

/// The count after `requests` have been served one after another, starting
/// from `count`.
pub open spec fn spec_count_after(count: nat, requests: Seq<RequestView>) -> nat
    decreases requests.len(),
{
    if requests.len() == 0 {
        count
    } else {
        let last = requests.last();
        spec_counter(
            spec_count_after(count, requests.drop_last()),
            last.method,
            last.path,
            last.body,
        ).0
    }
}

/// Whether `request` is a count-up request whose body asks for `diff`.
pub open spec fn counts_up_by(request: RequestView, diff: nat) -> bool {
    &&& spec_route(request.method, request.path) == Route::CountUp
    &&& spec_parse_body(request.body) matches Some(d)
    &&& d == diff
}

/// The count never falls.
pub proof fn lemma_count_never_falls(
    count: nat,
    method: Seq<char>,
    path: Seq<char>,
    body: Seq<u8>,
)
    ensures
        spec_counter(count, method, path, body).0 >= count,
{
}

/// Only a count-up request changes the count.
pub proof fn lemma_only_count_up_changes(count: nat, requests: Seq<RequestView>)
    requires
        forall|i: int|
            0 <= i < requests.len() ==> spec_route(
                #[trigger] requests[i].method,
                requests[i].path,
            ) != Route::CountUp,
    ensures
        spec_count_after(count, requests) == count,
    decreases requests.len(),
{
    if requests.len() > 0 {
        lemma_only_count_up_changes(count, requests.drop_last());
    }
}

/// Reading is idempotent: `GET /` leaves the count as it is, and a second
/// `GET /` gets the same response as the first, whatever was requested in
/// between, as long as none of it was a count-up request.
pub proof fn lemma_read_is_idempotent(
    count: nat,
    first_body: Seq<u8>,
    between: Seq<RequestView>,
    second_body: Seq<u8>,
)
    requires
        forall|i: int|
            0 <= i < between.len() ==> spec_route(#[trigger] between[i].method, between[i].path)
                != Route::CountUp,
    ensures
        ({
            let first = spec_counter(count, METHOD_GET@, PATH_TOP@, first_body);
            let second = spec_counter(
                spec_count_after(first.0, between),
                METHOD_GET@,
                PATH_TOP@,
                second_body,
            );
            &&& first == (count, spec_response_page(top_page(count)))
            &&& second == first
        }),
{
    lemma_routes();
    lemma_only_count_up_changes(count, between);
}

/// Counting up adds: from a count of `count`, a count-up request whose body
/// asks for `diff` gets the count-up page for `count + diff`, and a `GET /`
/// after it gets the top page for `count + diff`, as long as the sum fits in
/// a `usize`.
pub proof fn lemma_count_up_adds(count: nat, body: Seq<u8>, diff: usize, read_body: Seq<u8>)
    requires
        spec_parse_body(body) == Some(diff),
        count + diff <= usize::MAX,
    ensures
        ({
            let raised = spec_counter(count, METHOD_POST@, PATH_COUNT_UP@, body);
            let read = spec_counter(raised.0, METHOD_GET@, PATH_TOP@, read_body);
            let sum = count + diff as nat;
            &&& raised == (sum, spec_response_page(countup_page(sum)))
            &&& read == (sum, spec_response_page(top_page(sum)))
        }),
{
    lemma_routes();
}

/// No update is lost: count-up requests that each ask for 1 raise the count
/// by their number, in whatever order they are served, as long as the count
/// they lead to fits in a `usize`.
pub proof fn lemma_count_ups_by_one(count: nat, requests: Seq<RequestView>)
    requires
        forall|i: int| 0 <= i < requests.len() ==> counts_up_by(#[trigger] requests[i], 1),
        count + requests.len() <= usize::MAX,
    ensures
        spec_count_after(count, requests) == count + requests.len(),
    decreases requests.len(),
{
    if requests.len() > 0 {
        lemma_count_ups_by_one(count, requests.drop_last());
    }
}

/// A count-up request is turned down with 400, and leaves the count as it
/// is, exactly where its body asks for nothing or the sum would not fit in a
/// `usize`.
pub proof fn lemma_count_up_rejects(count: nat, body: Seq<u8>)
    ensures
        ({
            let served = spec_counter(count, METHOD_POST@, PATH_COUNT_UP@, body);
            let rejected = match spec_parse_body(body) {
                Some(diff) => count + diff > usize::MAX,
                None => true,
            };
            &&& rejected <==> served.1.status == STATUS_BAD_REQUEST
            &&& rejected ==> served == (count, empty_response(STATUS_BAD_REQUEST as nat))
        }),
{
    lemma_routes();
}

/// A request that is neither `GET /` nor `POST /count-up` gets 404 and leaves
/// the count as it is.
pub proof fn lemma_unknown_route(count: nat, method: Seq<char>, path: Seq<char>, body: Seq<u8>)
    requires
        !(method == METHOD_GET@ && path == PATH_TOP@),
        !(method == METHOD_POST@ && path == PATH_COUNT_UP@),
    ensures
        spec_counter(count, method, path, body) == (
            count,
            empty_response(STATUS_NOT_FOUND as nat),
        ),
{
}

/// Every response with status 200 carries a page of type `text/html`, and
/// its content length is the exact number of bytes of its body.
pub proof fn lemma_content_length_is_exact(
    count: nat,
    method: Seq<char>,
    path: Seq<char>,
    body: Seq<u8>,
)
    ensures
        ({
            let response = spec_counter(count, method, path, body).1;
            response.status == STATUS_OK ==> {
                &&& response.content_type == Some(CONTENT_TYPE_HTML@)
                &&& response.content_length == Some(byte_len(response.body))
            }
        }),
{
}

} // verus!
