//! A shared counter behind a two-route web page: the page at `/` shows the
//! count, and a form posted to `/count-up` raises it.
//!
//! Everything here is plain computation on plain values. A server takes the
//! method, path and body out of each request, lets `steps` say what to do
//! with them, and sends out the response it ends with. `handler` says what a
//! request does as a whole, and `interleaving` what becomes of the count when
//! many requests are served at once; both hold what is proved of it.

pub mod decimal;
pub mod handler;
pub mod interleaving;
pub mod page;
pub mod params;
pub mod response;
pub mod route;
pub mod steps;
pub mod store;
