//! Routing: which of the two routes a request takes, if any.

use vstd::prelude::*;
use vstd::string::*;
use vstd::utf8::{encode_utf8, encode_utf8_decode_utf8};

verus! {

/// The method of a request that reads.
pub const METHOD_GET: &'static str = "GET";

/// The method of a request that counts up.
pub const METHOD_POST: &'static str = "POST";

/// The path of the top page.
pub const PATH_TOP: &'static str = "/";

/// The path that count-up requests are posted to.
pub const PATH_COUNT_UP: &'static str = "/count-up";

/// Where a request goes.
#[derive(Debug, Clone, Copy, PartialEq, Eq)]
pub enum Route {
    /// `GET /`: show the count.
    TopPage,
    /// `POST /count-up`: raise the count.
    CountUp,
    /// Anything else.
    NotFound,
}

/// The route of a request with this method and path. Both are compared as
/// they stand, letter for letter.
pub open spec fn spec_route(method: Seq<char>, path: Seq<char>) -> Route {
    if method == METHOD_GET@ && path == PATH_TOP@ {
        Route::TopPage
    } else if method == METHOD_POST@ && path == PATH_COUNT_UP@ {
        Route::CountUp
    } else {
        Route::NotFound
    }
}

/// Whether `a` and `b` hold the same text.
fn same_text(a: &str, b: &str) -> (same: bool)
    ensures
        same == (a@ == b@),
{
    let a_bytes = a.as_bytes();
    let b_bytes = b.as_bytes();
    proof {
        encode_utf8_decode_utf8(a@);
        encode_utf8_decode_utf8(b@);
    }
    if a_bytes.len() != b_bytes.len() {
        return false;
    }
    let mut i: usize = 0;
    while i < a_bytes.len()
        invariant
            a_bytes@ == encode_utf8(a@),
            b_bytes@ == encode_utf8(b@),
            a_bytes.len() == b_bytes.len(),
            0 <= i <= a_bytes.len(),
            forall|k: int| 0 <= k < i ==> a_bytes@[k] == b_bytes@[k],
        decreases a_bytes.len() - i,
    {
        if a_bytes[i] != b_bytes[i] {
            return false;
        }
        i = i + 1;
    }
    assert(a_bytes@ =~= b_bytes@);
    true
}

/// Finds the route of a request with this method and path.
pub fn route(method: &str, path: &str) -> (r: Route)
    ensures
        r == spec_route(method@, path@),
{
    if same_text(method, METHOD_GET) && same_text(path, PATH_TOP) {
        Route::TopPage
    } else if same_text(method, METHOD_POST) && same_text(path, PATH_COUNT_UP) {
        Route::CountUp
    } else {
        Route::NotFound
    }
}

/// `GET /` takes the top page's route, and `POST /count-up` the count-up
/// route.
pub proof fn lemma_routes()
    ensures
        spec_route(METHOD_GET@, PATH_TOP@) == Route::TopPage,
        spec_route(METHOD_POST@, PATH_COUNT_UP@) == Route::CountUp,
{
    reveal_strlit("GET");
    reveal_strlit("POST");
    assert(METHOD_GET@.len() != METHOD_POST@.len());
}

} // verus!
