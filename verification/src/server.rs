//! The route handlers and the step that handles one connection.
//!
//! Handling a connection is a short exchange between this module and its
//! caller. [`build_response`] turns the bytes read from the connection into a
//! [`Step`]. Where the step is a finished response, the caller writes it out.
//! Where it asks for a file to be read or written, the caller does so in the
//! serving directory and hands the outcome to [`get_file_response`] or
//! [`post_file_response`], which give the response.

use crate::bytes::literal;
use crate::error::ConnectionError;
use crate::header::{find_header, headers_view, lookup, user_agent_name, Header, HeaderView};
use crate::request::{parse_request, request_of, Request, RequestView};
use crate::response::{
    empty_response, file_response, text_response, Response, ResponseView, Status,
};
use crate::route::{route, route_of, Route, RouteView};
use vstd::prelude::*;
use vstd::slice::slice_to_vec;

verus! {

/// What is to be done for a request.
#[derive(Clone, Debug, PartialEq, Eq)]
pub enum Step {
    /// Send this response.
    Respond(Response),
    /// Read the file `name` of the serving directory, then send what
    /// [`get_file_response`] gives for the outcome.
    Fetch { name: Vec<u8> },
    /// Write `content` to the file `name` of the serving directory, creating
    /// or truncating it, then send what [`post_file_response`] gives for the
    /// outcome.
    Store { name: Vec<u8>, content: Vec<u8> },
}

/// The mathematical value of a [`Step`].
pub enum StepView {
    Respond(ResponseView),
    Fetch { name: Seq<u8> },
    Store { name: Seq<u8>, content: Seq<u8> },
}

impl View for Step {
    type V = StepView;

    open spec fn view(&self) -> StepView {
        match *self {
            Step::Respond(response) => StepView::Respond(response@),
            Step::Fetch { name } => StepView::Fetch { name: name@ },
            Step::Store { name, content } => StepView::Store { name: name@, content: content@ },
        }
    }
}

/// The answer of the user-agent route: the value of the first `User-Agent`
/// header as plain text, or an error when no such header was sent.
pub open spec fn user_agent_response(headers: Seq<HeaderView>) -> Result<
    ResponseView,
    ConnectionError,
> {
    match lookup(headers, user_agent_name()) {
        Some(value) => Ok(text_response(value)),
        None => Err(ConnectionError::MissingUserAgent),
    }
}

/// What is to be done for a parsed request: the route decides, and each
/// route's handler says what is sent or what is asked of the directory.
pub open spec fn plan(request: RequestView) -> Result<StepView, ConnectionError> {
    match route_of(request.method, request.path) {
        RouteView::FileGet { name } => Ok(StepView::Fetch { name }),
        RouteView::FilePost { name } => Ok(StepView::Store { name, content: request.body }),
        RouteView::UserAgent => match user_agent_response(request.headers) {
            Ok(response) => Ok(StepView::Respond(response)),
            Err(e) => Err(e),
        },
        RouteView::Echo { rest } => Ok(StepView::Respond(text_response(rest))),
        RouteView::Root => Ok(StepView::Respond(empty_response(Status::Success))),
        RouteView::NotFound => Ok(StepView::Respond(empty_response(Status::NotFound))),
    }
}

/// What is to be done for the bytes read from a connection.
pub open spec fn step_of(buffer: Seq<u8>) -> Result<StepView, ConnectionError> {
    match request_of(buffer) {
        Ok(request) => plan(request),
        Err(e) => Err(e),
    }
}

/// The answer to a file request, given the content that was read, or `None`
/// when the file could not be read: the content with status 200, or an empty
/// 404.
pub open spec fn fetched_response(content: Option<Seq<u8>>) -> ResponseView {
    match content {
        Some(bytes) => file_response(bytes),
        None => empty_response(Status::NotFound),
    }
}

/// The answer to an upload, given whether the file was written: an empty 201,
/// or an error.
pub open spec fn stored_response(written: bool) -> Result<ResponseView, ConnectionError> {
    if written {
        Ok(empty_response(Status::Created))
    } else {
        Err(ConnectionError::WriteFailed)
    }
}

/// Answers the user-agent route from the headers of the request.
///
/// Fails exactly when no header is named `User-Agent`.
pub fn get_user_agent_response(headers: &Vec<Header>) -> (r: Result<Response, ConnectionError>)
    ensures
        match r {
            Ok(response) => user_agent_response(headers_view(headers@)) == Ok::<
                ResponseView,
                ConnectionError,
            >(response@),
            Err(e) => user_agent_response(headers_view(headers@)) == Err::<
                ResponseView,
                ConnectionError,
            >(e),
        },
{
    proof {
        reveal_strlit("User-Agent");
    }
    let name = literal("User-Agent");
    match find_header(headers, name.as_slice()) {
        Some(value) => Ok(Response::text(slice_to_vec(value.as_slice()))),
        None => Err(ConnectionError::MissingUserAgent),
    }
}

/// Answers a file request, given the content read from the directory, or
/// `None` when the read failed for whatever reason.
pub fn get_file_response(content: Option<Vec<u8>>) -> (r: Response)
    ensures
        r@ == fetched_response(
            match content {
                Some(bytes) => Some(bytes@),
                None => None,
            },
        ),
{
    match content {
        Some(bytes) => Response::file(bytes),
        None => Response::empty(Status::NotFound),
    }
}

/// Answers an upload, given whether the file was written.
///
/// A failed write ends the connection without a response.
pub fn post_file_response(written: bool) -> (r: Result<Response, ConnectionError>)
    ensures
        match r {
            Ok(response) => stored_response(written) == Ok::<ResponseView, ConnectionError>(
                response@,
            ),
            Err(e) => stored_response(written) == Err::<ResponseView, ConnectionError>(e),
        },
{
    if written {
        Ok(Response::empty(Status::Created))
    } else {
        Err(ConnectionError::WriteFailed)
    }
}

/// Decides what is to be done for a parsed request.
///
/// Fails exactly when the request is for the user-agent route and carries no
/// `User-Agent` header.
pub fn respond(request: Request) -> (r: Result<Step, ConnectionError>)
    ensures
        match r {
            Ok(step) => plan(request@) == Ok::<StepView, ConnectionError>(step@),
            Err(e) => plan(request@) == Err::<StepView, ConnectionError>(e),
        },
{
    match route(request.method.as_slice(), request.path.as_slice()) {
        Route::FileGet { name } => Ok(Step::Fetch { name }),
        Route::FilePost { name } => Ok(Step::Store { name, content: request.body }),
        Route::UserAgent => match get_user_agent_response(&request.headers) {
            Ok(response) => Ok(Step::Respond(response)),
            Err(e) => Err(e),
        },
        Route::Echo { rest } => Ok(Step::Respond(Response::text(rest))),
        Route::Root => Ok(Step::Respond(Response::empty(Status::Success))),
        Route::NotFound => Ok(Step::Respond(Response::empty(Status::NotFound))),
    }
}

/// Decides what is to be done for the bytes read from a connection.
///
/// Fails exactly when the request line holds fewer than two tokens, or when
/// the request is for the user-agent route and carries no `User-Agent`
/// header.
pub fn build_response(buffer: &[u8]) -> (r: Result<Step, ConnectionError>)
    ensures
        match r {
            Ok(step) => step_of(buffer@) == Ok::<StepView, ConnectionError>(step@),
            Err(e) => step_of(buffer@) == Err::<StepView, ConnectionError>(e),
        },
{
    match parse_request(buffer) {
        Ok(request) => respond(request),
        Err(e) => Err(e),
    }
}

} // verus!
