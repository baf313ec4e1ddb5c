//! The two HTML pages. Both are a fixed shell around one line that shows the
//! count.

use vstd::prelude::*;
use vstd::string::*;

use crate::decimal::{append_decimal, decimal};

verus! {

/// What both pages start with.
pub const PAGE_HEAD: &'static str =
    "<html>\n    <head><title>toy-web-counter</title></head>\n    <body>";

/// What the top page ends with: a form that posts `diff=1` to `/count-up`.
pub const TOP_PAGE_TAIL: &'static str =
    "<form action=\"/count-up\" method=\"post\">\n      <div><button name=\"diff\" value=\"1\">Count Up</button></div>\n    </form></body></html>";

/// What the count-up page ends with: a link back to `/`.
pub const COUNTUP_PAGE_TAIL: &'static str =
    "<a href=\"/\">Back to Top Page</a>\n        </body></html>";

/// The line that shows a count of `n`.
pub open spec fn count_line(n: nat) -> Seq<char> {
    "<p>Count = "@ + decimal(n) + "</p>"@
}

/// A page: the head, the line for a count of `n` and `tail`, each on a line
/// of its own.
pub open spec fn page(n: nat, tail: Seq<char>) -> Seq<char> {
    PAGE_HEAD@ + "\n"@ + count_line(n) + "\n"@ + tail
}

/// The top page for a count of `n`.
pub open spec fn top_page(n: nat) -> Seq<char> {
    page(n, TOP_PAGE_TAIL@)
}

/// The count-up page for a count of `n`.
pub open spec fn countup_page(n: nat) -> Seq<char> {
    page(n, COUNTUP_PAGE_TAIL@)
}

/// Renders the page for a count of `n` that ends with `tail`.
fn generate_page(n: usize, tail: &str) -> (html: String)
    ensures
        html@ == page(n as nat, tail@),
{
    let mut html = String::from_str(PAGE_HEAD);
    html.append("\n");
    html.append("<p>Count = ");
    append_decimal(&mut html, n);
    html.append("</p>");
    html.append("\n");
    html.append(tail);
    html
}

/// Renders the top page for a count of `n`.
pub fn generate_top_page(n: usize) -> (html: String)
    ensures
        html@ == top_page(n as nat),
{
    generate_page(n, TOP_PAGE_TAIL)
}

/// Renders the count-up page for a count of `n`.
pub fn generate_countup_page(n: usize) -> (html: String)
    ensures
        html@ == countup_page(n as nat),
{
    generate_page(n, COUNTUP_PAGE_TAIL)
}

} // verus!
