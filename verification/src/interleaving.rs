//! Requests served at once.
//!
//! A server may serve many requests at the same time, as long as every step
//! is taken alone: nothing else reaches the counter while a step reads or
//! raises it. This module says what then becomes of the count, whatever the
//! order in which the requests take their steps.

use vstd::prelude::*;

use crate::handler::{counts_up_by, spec_counter, RequestView};
use crate::response::STATUS_OK;
use crate::steps::{spec_on_body, spec_on_count, spec_on_raised, spec_on_request, StepView};
use crate::store::spec_increment_by;

verus! {

/// A server in the midst of its requests.
pub struct ServerView {
    /// The count.
    pub count: nat,
    /// The step that each request has come to.
    pub steps: Seq<StepView>,
}

/// The server as `requests` arrive: each stands at its first step.
pub open spec fn spec_arrive(count: nat, requests: Seq<RequestView>) -> ServerView {
    ServerView {
        count,
        steps: Seq::new(
            requests.len(),
            |i: int| spec_on_request(requests[i].method, requests[i].path),
        ),
    }
}

/// The server after request `i` has taken its next step. A request that has
/// its response takes no further step.
pub open spec fn spec_advance(
    server: ServerView,
    requests: Seq<RequestView>,
    i: int,
) -> ServerView {
    match server.steps[i] {
        StepView::ReadBody => ServerView {
            count: server.count,
            steps: server.steps.update(i, spec_on_body(requests[i].body)),
        },
        StepView::ReadCount => ServerView {
            count: server.count,
            steps: server.steps.update(i, spec_on_count(server.count)),
        },
        StepView::Increment(diff) => {
            let (count, raised) = spec_increment_by(server.count, diff);
            ServerView { count, steps: server.steps.update(i, spec_on_raised(raised)) }
        },
        StepView::Respond(_) => server,
    }
}

/// The server after `requests` have arrived at a count of `count` and taken
/// steps in the order of `schedule`, which names for each step the request
/// that takes it.
pub open spec fn spec_interleave(
    count: nat,
    requests: Seq<RequestView>,
    schedule: Seq<int>,
) -> ServerView
    decreases schedule.len(),
{
    if schedule.len() == 0 {
        spec_arrive(count, requests)
    } else {
        let before = spec_interleave(count, requests, schedule.drop_last());
        let i = schedule.last();
        if 0 <= i < requests.len() {
            spec_advance(before, requests, i)
        } else {
            before
        }
    }
}

/// A request that takes its steps without a step of another in between is
/// served as `spec_counter` says, in two steps at most, and the other
/// requests stay where they are.
pub proof fn lemma_served_alone(server: ServerView, requests: Seq<RequestView>, i: int)
    requires
        server.steps.len() == requests.len(),
        0 <= i < requests.len(),
        server.steps[i] == spec_on_request(requests[i].method, requests[i].path),
    ensures
        ({
            let request = requests[i];
            let served = spec_counter(server.count, request.method, request.path, request.body);
            let after = spec_advance(spec_advance(server, requests, i), requests, i);
            &&& after.count == served.0
            &&& after.steps == server.steps.update(i, StepView::Respond(served.1))
        }),
{
}

/// How many of `steps` are responses.
pub open spec fn responded(steps: Seq<StepView>) -> nat
    decreases steps.len(),
{
    if steps.len() == 0 {
        0
    } else {
        responded(steps.drop_last()) + if steps.last() is Respond {
            1nat
        } else {
            0nat
        }
    }
}

/// Whether every one of `steps` is a response.
pub open spec fn all_responded(steps: Seq<StepView>) -> bool {
    forall|i: int| 0 <= i < steps.len() ==> #[trigger] steps[i] is Respond
}

/// Whether `step` is one that a count-up request for 1 comes to: to read the
/// body, to raise the count by 1, or a response with a page.
pub open spec fn counting_up_by_one(step: StepView) -> bool {
    match step {
        StepView::ReadBody => true,
        StepView::ReadCount => false,
        StepView::Increment(diff) => diff == 1,
        StepView::Respond(response) => response.status == STATUS_OK,
    }
}

/// At most all steps are responses; all of them are exactly where the
/// number of responses is the number of steps.
proof fn lemma_responded_bounds(steps: Seq<StepView>)
    ensures
        responded(steps) <= steps.len(),
        all_responded(steps) <==> responded(steps) == steps.len(),
    decreases steps.len(),
{
    if steps.len() > 0 {
        let earlier = steps.drop_last();
        lemma_responded_bounds(earlier);
        if responded(steps) == steps.len() {
            assert forall|i: int| 0 <= i < steps.len() implies #[trigger] steps[i] is Respond by {
                if i < earlier.len() {
                    assert(earlier[i] is Respond);
                }
            }
        }
    }
}

/// Steps of which none is a response hold no responses.
proof fn lemma_no_responses(steps: Seq<StepView>)
    requires
        forall|i: int| 0 <= i < steps.len() ==> !(#[trigger] steps[i] is Respond),
    ensures
        responded(steps) == 0,
    decreases steps.len(),
{
    if steps.len() > 0 {
        lemma_no_responses(steps.drop_last());
    }
}

/// A step that takes the place of another changes the number of responses
/// by what the two differ in.
proof fn lemma_responded_update(steps: Seq<StepView>, i: int, step: StepView)
    requires
        0 <= i < steps.len(),
    ensures
        responded(steps.update(i, step)) + (if steps[i] is Respond {
            1nat
        } else {
            0nat
        }) == responded(steps) + (if step is Respond {
            1nat
        } else {
            0nat
        }),
    decreases steps.len(),
{
    let updated = steps.update(i, step);
    if i == steps.len() - 1 {
        assert(updated.drop_last() =~= steps.drop_last());
    } else {
        assert(updated.drop_last() =~= steps.drop_last().update(i, step));
        lemma_responded_update(steps.drop_last(), i, step);
    }
}

/// No update is lost. When count-up requests that each ask for 1 are served
/// at once, then whatever the order of their steps, each of them goes from
/// the body to the addition of 1 to a response with a page, and the count
/// has at every moment been raised by the number of requests that have their
/// response. So once all of them have it, the count has been raised by
/// their number. All this as long as the count that they lead to fits in a
/// `usize`.
pub proof fn lemma_no_update_is_lost(count: nat, requests: Seq<RequestView>, schedule: Seq<int>)
    requires
        forall|i: int| 0 <= i < requests.len() ==> counts_up_by(#[trigger] requests[i], 1),
        count + requests.len() <= usize::MAX,
    ensures
        ({
            let server = spec_interleave(count, requests, schedule);
            &&& server.steps.len() == requests.len()
            &&& forall|i: int|
                0 <= i < requests.len() ==> counting_up_by_one(#[trigger] server.steps[i])
            &&& server.count == count + responded(server.steps)
            &&& all_responded(server.steps) ==> server.count == count + requests.len()
        }),
    decreases schedule.len(),
{
    let server = spec_interleave(count, requests, schedule);
    if schedule.len() == 0 {
        lemma_no_responses(server.steps);
    } else {
        let before = spec_interleave(count, requests, schedule.drop_last());
        lemma_no_update_is_lost(count, requests, schedule.drop_last());
        let i = schedule.last();
        if 0 <= i < requests.len() {
            lemma_responded_bounds(before.steps);
            lemma_responded_update(before.steps, i, server.steps[i]);
        }
    }
    lemma_responded_bounds(server.steps);
}

} // verus!
