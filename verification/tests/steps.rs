use toy_web_counter::page::{generate_countup_page, generate_top_page};
use toy_web_counter::response::{response_bad_request, response_not_found, response_page};
use toy_web_counter::steps::{on_body, on_count, on_raised, on_request, Step};
use toy_web_counter::store::Counter;

#[test]
fn a_read_needs_the_count() {
    assert_eq!(on_request("GET", "/"), Step::ReadCount);
}

#[test]
fn a_count_up_needs_the_body() {
    assert_eq!(on_request("POST", "/count-up"), Step::ReadBody);
}

#[test]
fn any_other_request_is_answered_at_once_with_404() {
    assert_eq!(on_request("GET", "/nonexistent"), Step::Respond(response_not_found()));
    assert_eq!(on_request("DELETE", "/"), Step::Respond(response_not_found()));
    assert_eq!(on_request("GET", "/count-up"), Step::Respond(response_not_found()));
    assert_eq!(on_request("POST", "/"), Step::Respond(response_not_found()));
    assert_eq!(on_request("post", "/count-up"), Step::Respond(response_not_found()));
}

#[test]
fn a_body_that_asks_for_an_amount_leads_to_the_increment() {
    assert_eq!(on_body(b"diff=1"), Step::Increment(1));
    assert_eq!(on_body(b"diff=5&x=y"), Step::Increment(5));
    assert_eq!(on_body(b"diff=0"), Step::Increment(0));
    let largest = format!("diff={}", usize::MAX);
    assert_eq!(on_body(largest.as_bytes()), Step::Increment(usize::MAX));
}

#[test]
fn a_body_that_asks_for_nothing_is_answered_with_400() {
    let bodies: [&[u8]; 6] = [b"foo=1", b"diff=abc", b"", b"diff", b"diff=5\xff", b"\xc3"];
    for body in bodies.iter() {
        assert_eq!(on_body(body), Step::Respond(response_bad_request()));
    }
}

#[test]
fn a_count_that_was_read_is_shown_on_the_top_page() {
    assert_eq!(on_count(0), Step::Respond(response_page(generate_top_page(0))));
    assert_eq!(on_count(77), Step::Respond(response_page(generate_top_page(77))));
    assert_eq!(
        on_count(usize::MAX),
        Step::Respond(response_page(generate_top_page(usize::MAX)))
    );
}

#[test]
fn a_count_that_was_reached_is_shown_on_the_countup_page() {
    assert_eq!(on_raised(Some(8)), Step::Respond(response_page(generate_countup_page(8))));
    assert_eq!(on_raised(Some(0)), Step::Respond(response_page(generate_countup_page(0))));
}

#[test]
fn a_sum_that_did_not_fit_is_answered_with_400() {
    assert_eq!(on_raised(None), Step::Respond(response_bad_request()));
}

#[test]
fn every_request_is_done_within_three_steps() {
    let requests: [(&str, &str, &[u8]); 6] = [
        ("GET", "/", b""),
        ("POST", "/count-up", b"diff=2"),
        ("POST", "/count-up", b"diff=x"),
        ("POST", "/count-up", b"diff=18446744073709551615"),
        ("PUT", "/", b"diff=2"),
        ("GET", "/missing", b""),
    ];
    let mut count = Counter::new();
    assert_eq!(count.increment_by(1), Some(1));
    for (method, path, body) in requests.iter() {
        let mut step = on_request(method, path);
        let mut steps = 1;
        loop {
            step = match step {
                Step::ReadBody => on_body(body),
                Step::ReadCount => on_count(count.read()),
                Step::Increment(diff) => on_raised(count.increment_by(diff)),
                Step::Respond(_) => break,
            };
            steps += 1;
        }
        assert!(steps <= 3);
    }
    assert_eq!(count.read(), 3);
}

/// Advances request `i` by one step, as a server would with the counter to
/// itself for that step.
fn advance(count: &mut Counter, steps: &mut Vec<Step>, bodies: &[&[u8]], i: usize) {
    let step = std::mem::replace(&mut steps[i], Step::ReadBody);
    steps[i] = match step {
        Step::ReadBody => on_body(bodies[i]),
        Step::ReadCount => on_count(count.read()),
        Step::Increment(diff) => on_raised(count.increment_by(diff)),
        Step::Respond(response) => Step::Respond(response),
    };
}

fn responded(steps: &[Step]) -> usize {
    steps.iter().filter(|step| matches!(step, Step::Respond(_))).count()
}

#[test]
fn count_ups_by_one_lose_nothing_in_any_order_of_steps() {
    let requests = 40usize;
    let bodies: Vec<&[u8]> = vec![b"diff=1"; requests];
    for seed in 1..=25u64 {
        let mut count = Counter::new();
        assert_eq!(count.increment_by(7), Some(7));
        let mut steps: Vec<Step> = Vec::new();
        for _ in 0..requests {
            steps.push(on_request("POST", "/count-up"));
        }
        let mut state = seed;
        while responded(&steps) < requests {
            state = state.wrapping_mul(6364136223846793005).wrapping_add(1442695040888963407);
            let i = (state >> 33) as usize % requests;
            advance(&mut count, &mut steps, &bodies, i);
            assert_eq!(count.read(), 7 + responded(&steps));
        }
        assert_eq!(count.read(), 7 + requests);
        let mut shown: Vec<String> = Vec::new();
        for step in steps {
            match step {
                Step::Respond(response) => {
                    assert_eq!(response.status, 200);
                    shown.push(response.body);
                }
                _ => unreachable!(),
            }
        }
        for n in 8..=7 + requests {
            let page = generate_countup_page(n);
            assert_eq!(shown.iter().filter(|body| **body == page).count(), 1);
        }
    }
}

#[test]
fn a_request_served_alone_is_served_as_by_the_handler() {
    let requests: [(&str, &str, &[u8]); 5] = [
        ("GET", "/", b""),
        ("POST", "/count-up", b"diff=4"),
        ("POST", "/count-up", b"diff=x"),
        ("GET", "/nowhere", b""),
        ("GET", "/", b"diff=1"),
    ];
    let mut stepwise = Counter::new();
    let mut whole = Counter::new();
    for (method, path, body) in requests.iter() {
        let mut steps = vec![on_request(method, path)];
        advance(&mut stepwise, &mut steps, &[body], 0);
        advance(&mut stepwise, &mut steps, &[body], 0);
        let expected = toy_web_counter::handler::counter(&mut whole, method, path, body);
        assert_eq!(steps.pop(), Some(Step::Respond(expected)));
        assert_eq!(stepwise.read(), whole.read());
    }
    assert_eq!(whole.read(), 4);
}
