//! Handlers and dispatch: from a parsed request to a response, or to the
//! one filesystem action the caller must perform first.
//!
//! The filesystem itself stays outside this library. Dispatch returns
//! either a finished response or an action naming the file to read or
//! write; the caller performs the action and hands its outcome back to
//! [`read_file_response`] or [`write_file_response`], which finish the
//! exchange. File writes are write-once: an existing file is never
//! overwritten, the attempt is answered with `404 NOT FOUND`.

use vstd::prelude::*;
use vstd::string::StringExecFns;

use crate::request::{
    header_lookup, pair_views, parse_request, spec_body, spec_header_map, spec_headers,
    spec_method_of, spec_segments, spec_tokens, ParseError, Request,
};
use crate::response::{response_view, HttpResponse, ResponseBody, ResponseModel, StatusCode};
use crate::router::{route, spec_route, Route, RouteModel};
use crate::strutil::views_of;

verus! {

/// A handler-level condition that aborts the exchange without a response.
#[derive(Clone, Copy, Debug, PartialEq, Eq, Structural)]
pub enum HandlerError {
    HeaderNotFound,
}

/// Why an exchange produced no response: the request did not parse, or a
/// handler-level condition held.
#[derive(Clone, Copy, Debug, PartialEq, Eq, Structural)]
pub enum RequestError {
    Parse(ParseError),
    Handler(HandlerError),
}

/// What dispatch asks of its caller: send a finished response, or perform
/// one filesystem access under the configured directory and hand the
/// outcome back.
#[derive(Debug, PartialEq, Eq)]
pub enum Action {
    Respond(HttpResponse),
    ReadFile(String),
    WriteFile(String, String),
}

/// The mathematical value of an action.
pub enum ActionModel {
    Respond(ResponseModel),
    ReadFile(Seq<char>),
    WriteFile(Seq<char>, Seq<char>),
}

/// The model of an action value.
pub open spec fn action_view(a: Action) -> ActionModel {
    match a {
        Action::Respond(r) => ActionModel::Respond(response_view(r)),
        Action::ReadFile(p) => ActionModel::ReadFile(p@),
        Action::WriteFile(p, c) => ActionModel::WriteFile(p@, c@),
    }
}

/// The response with status `404 NOT FOUND` and no body.
pub open spec fn spec_not_found() -> ResponseModel {
    ResponseModel { status: StatusCode::NotFound, body: None }
}

/// The action or failure each route calls for.
///
/// Root answers `200 OK` with no body. Echo answers `200 OK` with the
/// captured text as `text/plain`. The user-agent route reflects the
/// `User-Agent` header and fails without one. The file routes answer
/// `404 NOT FOUND` outright when no directory is configured, and a file
/// write does so too when the request carried no body; otherwise they ask
/// for the one filesystem access. An unmatched route answers
/// `404 NOT FOUND`.
pub open spec fn spec_handle(
    r: RouteModel,
    headers: Map<Seq<char>, Seq<char>>,
    body: Option<Seq<char>>,
    dir_configured: bool,
) -> Result<ActionModel, HandlerError> {
    match r {
        RouteModel::Root => Ok(
            ActionModel::Respond(ResponseModel { status: StatusCode::Okay, body: None }),
        ),
        RouteModel::Echo(text) => Ok(
            ActionModel::Respond(
                ResponseModel { status: StatusCode::Okay, body: Some(("text/plain"@, text)) },
            ),
        ),
        RouteModel::UserAgent => if headers.contains_key("User-Agent"@) {
            Ok(
                ActionModel::Respond(
                    ResponseModel {
                        status: StatusCode::Okay,
                        body: Some(("text/plain"@, headers["User-Agent"@])),
                    },
                ),
            )
        } else {
            Err(HandlerError::HeaderNotFound)
        },
        RouteModel::FileGet(path) => if dir_configured {
            Ok(ActionModel::ReadFile(path))
        } else {
            Ok(ActionModel::Respond(spec_not_found()))
        },
        RouteModel::FileSave(path) => if !dir_configured {
            Ok(ActionModel::Respond(spec_not_found()))
        } else {
            match body {
                None => Ok(ActionModel::Respond(spec_not_found())),
                Some(content) => Ok(ActionModel::WriteFile(path, content)),
            }
        },
        RouteModel::Unmatched => Ok(ActionModel::Respond(spec_not_found())),
    }
}

/// The response with status `404 NOT FOUND` and no body.
pub fn not_found_response() -> (r: HttpResponse)
    ensures
        response_view(r) == spec_not_found(),
{
    HttpResponse { status_code: StatusCode::NotFound, body: None }
}

/// Dispatches a parsed request to its route's handler.
pub fn handle_request(req: &Request, dir_configured: bool) -> (r: Result<Action, HandlerError>)
    ensures
        ({
            let expected = spec_handle(
                spec_route(req.method, views_of(req.path@)),
                spec_header_map(pair_views(req.headers@)),
                match req.body {
                    Some(b) => Some(b@),
                    None => None,
                },
                dir_configured,
            );
            match r {
                Ok(a) => expected == Ok::<ActionModel, HandlerError>(action_view(a)),
                Err(e) => expected == Err::<ActionModel, HandlerError>(e),
            }
        }),
{
    match route(req.method, &req.path) {
        Route::Root => Ok(
            Action::Respond(HttpResponse { status_code: StatusCode::Okay, body: None }),
        ),
        Route::Echo(text) => Ok(
            Action::Respond(
                HttpResponse {
                    status_code: StatusCode::Okay,
                    body: Some(
                        ResponseBody {
                            content_type: String::from_str("text/plain"),
                            content: text,
                        },
                    ),
                },
            ),
        ),
        Route::UserAgent => match header_lookup(&req.headers, "User-Agent") {
            Some(value) => Ok(
                Action::Respond(
                    HttpResponse {
                        status_code: StatusCode::Okay,
                        body: Some(
                            ResponseBody {
                                content_type: String::from_str("text/plain"),
                                content: value,
                            },
                        ),
                    },
                ),
            ),
            None => Err(HandlerError::HeaderNotFound),
        },
        Route::FileGet(path) => if dir_configured {
            Ok(Action::ReadFile(path))
        } else {
            Ok(Action::Respond(not_found_response()))
        },
        Route::FileSave(path) => if !dir_configured {
            Ok(Action::Respond(not_found_response()))
        } else {
            match &req.body {
                None => Ok(Action::Respond(not_found_response())),
                Some(content) => Ok(Action::WriteFile(path, content.clone())),
            }
        },
        Route::Unmatched => Ok(Action::Respond(not_found_response())),
    }
}

/// The response to a file read: the file's content as
/// `application/octet-stream` when the file existed, `404 NOT FOUND` when
/// it did not.
pub fn read_file_response(content: Option<String>) -> (r: HttpResponse)
    ensures
        response_view(r) == match content {
            Some(c) => ResponseModel {
                status: StatusCode::Okay,
                body: Some(("application/octet-stream"@, c@)),
            },
            None => spec_not_found(),
        },
{
    match content {
        Some(c) => HttpResponse {
            status_code: StatusCode::Okay,
            body: Some(
                ResponseBody {
                    content_type: String::from_str("application/octet-stream"),
                    content: c,
                },
            ),
        },
        None => not_found_response(),
    }
}

/// The response to a file write under the write-once policy: `201 Created`
/// with no body when the target did not exist and was written, `404 NOT
/// FOUND` when it already existed and was left untouched.
pub fn write_file_response(file_existed: bool) -> (r: HttpResponse)
    ensures
        response_view(r) == if file_existed {
            spec_not_found()
        } else {
            ResponseModel { status: StatusCode::Created, body: None }
        },
{
    if file_existed {
        not_found_response()
    } else {
        HttpResponse { status_code: StatusCode::Created, body: None }
    }
}

/// Parses the wire text and dispatches it in one step: the whole exchange
/// up to the one filesystem access, if the route needs one.
pub fn handle_input(input: &str, dir_configured: bool) -> (r: Result<Action, RequestError>)
    ensures
        ({
            let toks = spec_tokens(input@);
            let parses = toks.len() >= 3 && spec_method_of(toks[0]) is Some;
            let expected = spec_handle(
                spec_route(spec_method_of(toks[0])->0, spec_segments(toks[1])),
                spec_header_map(spec_headers(input@)),
                spec_body(input@),
                dir_configured,
            );
            match r {
                Ok(a) => parses && expected == Ok::<ActionModel, HandlerError>(action_view(a)),
                Err(RequestError::Parse(ParseError::MalformedRequestLine)) => toks.len() < 3,
                Err(RequestError::Parse(ParseError::UnsupportedMethod)) => toks.len() >= 3
                    && spec_method_of(toks[0]) is None,
                Err(RequestError::Handler(e)) => parses && expected == Err::<
                    ActionModel,
                    HandlerError,
                >(e),
            }
        }),
{
    let req = match parse_request(input) {
        Err(e) => {
            return Err(RequestError::Parse(e));
        },
        Ok(req) => req,
    };
    match handle_request(&req, dir_configured) {
        Ok(a) => Ok(a),
        Err(e) => Err(RequestError::Handler(e)),
    }
}

} // verus!
