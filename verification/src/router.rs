//! The router: maps a method and path segments to a route, first match
//! wins.
//!
//! The patterns, in order: `GET /` is the root; `GET /echo/...` echoes the
//! remaining segments rejoined with `/`; `GET /user-agent` reflects a
//! header; `GET /files/...` reads and `POST /files/...` writes the file
//! named by the remaining segments rejoined with `/`; everything else is
//! unmatched.

use vstd::prelude::*;
use vstd::string::StringExecFns;

use crate::request::Method;
use crate::strutil::{join_from, spec_join, str_eq, views_of};

verus! {

/// A match result: the handler to run and its captured path argument.
#[derive(Debug, PartialEq, Eq)]
pub enum Route {
    Root,
    Echo(String),
    UserAgent,
    FileGet(String),
    FileSave(String),
    Unmatched,
}

/// The mathematical value of a route.
pub enum RouteModel {
    Root,
    Echo(Seq<char>),
    UserAgent,
    FileGet(Seq<char>),
    FileSave(Seq<char>),
    Unmatched,
}

/// The model of a route value.
pub open spec fn route_view(r: Route) -> RouteModel {
    match r {
        Route::Root => RouteModel::Root,
        Route::Echo(s) => RouteModel::Echo(s@),
        Route::UserAgent => RouteModel::UserAgent,
        Route::FileGet(s) => RouteModel::FileGet(s@),
        Route::FileSave(s) => RouteModel::FileSave(s@),
        Route::Unmatched => RouteModel::Unmatched,
    }
}

/// The route for a method and path segments: the first pattern of the
/// fixed order that matches.
pub open spec fn spec_route(m: Method, segs: Seq<Seq<char>>) -> RouteModel {
    if m == Method::Get && segs.len() == 1 && segs[0].len() == 0 {
        RouteModel::Root
    } else if m == Method::Get && segs.len() >= 1 && segs[0] == "echo"@ {
        RouteModel::Echo(spec_join(segs.skip(1), "/"@))
    } else if m == Method::Get && segs.len() == 1 && segs[0] == "user-agent"@ {
        RouteModel::UserAgent
    } else if m == Method::Get && segs.len() >= 1 && segs[0] == "files"@ {
        RouteModel::FileGet(spec_join(segs.skip(1), "/"@))
    } else if m == Method::Post && segs.len() >= 1 && segs[0] == "files"@ {
        RouteModel::FileSave(spec_join(segs.skip(1), "/"@))
    } else {
        RouteModel::Unmatched
    }
}

/// Matches the method and segments against the fixed patterns, in order.
pub fn route(method: Method, segments: &Vec<String>) -> (r: Route)
    ensures
        route_view(r) == spec_route(method, views_of(segments@)),
{
    let ghost segs = views_of(segments@);
    if segments.len() == 0 {
        return Route::Unmatched;
    }
    proof {
        assert(segs[0] == segments@[0]@);
    }
    let first = (&segments[0]).as_str();
    let is_get = matches!(method, Method::Get);
    let is_post = matches!(method, Method::Post);
    if is_get && segments.len() == 1 && first.is_empty() {
        Route::Root
    } else if is_get && str_eq(first, "echo") {
        Route::Echo(join_from(segments, 1, "/"))
    } else if is_get && segments.len() == 1 && str_eq(first, "user-agent") {
        Route::UserAgent
    } else if is_get && str_eq(first, "files") {
        Route::FileGet(join_from(segments, 1, "/"))
    } else if is_post && str_eq(first, "files") {
        Route::FileSave(join_from(segments, 1, "/"))
    } else {
        Route::Unmatched
    }
}

} // verus!
