//! What the HTTP surface answers, apart from sending it.

use vstd::prelude::*;
use vstd::string::*;
use crate::text::same_text;

verus! {

/// The header that every answer carries besides its content type.
pub const FIXED_HEADER_NAME: &'static str = "X-Clacks-Overhead";

pub const FIXED_HEADER_VALUE: &'static str = "GNU Terry Pratchett";

pub const CONTENT_TYPE: &'static str = "text/plain";

pub const HTTP_NOT_FOUND: &'static str = "Not found";

pub const HTTP_METHOD_NOT_ALLOWED: &'static str = "Method not allowed";

/// The answer to a request.
#[derive(Clone, Copy, Debug, PartialEq, Eq, Structural)]
pub enum Route {
    /// `GET /`: the page that points to the metrics.
    Root,
    /// `GET` of the metrics path: the document.
    Metrics,
    /// `GET` of any other path.
    NotFound,
    /// Any other method.
    MethodNotAllowed,
}

/// Decides the answer to a request from its method and path.
pub fn route(is_get: bool, url: &str, metrics_path: &str) -> (r: Route)
    ensures
        r == if !is_get {
            Route::MethodNotAllowed
        } else if url@ == "/"@ {
            Route::Root
        } else if url@ == metrics_path@ {
            Route::Metrics
        } else {
            Route::NotFound
        },
{
    if !is_get {
        Route::MethodNotAllowed
    } else if same_text(url, "/") {
        Route::Root
    } else if same_text(url, metrics_path) {
        Route::Metrics
    } else {
        Route::NotFound
    }
}

/// The status code that goes with an answer.
pub fn status_code(r: Route) -> (code: u16)
    ensures
        code == match r {
            Route::Root => 302u16,
            Route::Metrics => 200u16,
            Route::NotFound => 404u16,
            Route::MethodNotAllowed => 405u16,
        },
{
    match r {
        Route::Root => 302,
        Route::Metrics => 200,
        Route::NotFound => 404,
        Route::MethodNotAllowed => 405,
    }
}

/// The body of an answer: the given page for the root, the given document
/// for the metrics path, a fixed text for the rest.
pub fn body(r: Route, html_root: &str, metrics: String) -> (text: String)
    ensures
        text@ == match r {
            Route::Root => html_root@,
            Route::Metrics => metrics@,
            Route::NotFound => HTTP_NOT_FOUND@,
            Route::MethodNotAllowed => HTTP_METHOD_NOT_ALLOWED@,
        },
{
    match r {
        Route::Root => String::from_str(html_root),
        Route::Metrics => metrics,
        Route::NotFound => String::from_str(HTTP_NOT_FOUND),
        Route::MethodNotAllowed => String::from_str(HTTP_METHOD_NOT_ALLOWED),
    }
}

/// A scrape that did not return a document.
#[derive(Clone, Copy, Debug, PartialEq, Eq, Structural)]
pub struct ScrapeFailure {
    /// The status that the source answered with.
    pub status: u16,
}

/// Accepts the answer of a source only with status 200.
pub fn check_status(status: u16) -> (r: Result<(), ScrapeFailure>)
    ensures
        r == if status == 200 {
            Ok::<(), ScrapeFailure>(())
        } else {
            Err::<(), ScrapeFailure>(ScrapeFailure { status })
        },
{
    if status == 200 {
        Ok(())
    } else {
        Err(ScrapeFailure { status })
    }
}

} // verus!
