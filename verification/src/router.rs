//! The router: from a request to what the server does next.
//!
//! Routing itself reads no files. Where a request asks for one, the router
//! says which, and turns what was read into the response afterwards.

use vstd::prelude::*;
use vstd::string::StringExecFns;
use crate::grammar::defect;
use crate::http_response::{
    built, HttpResponse, ResponseView, FILE_CONTENT_TYPE, PLAIN_TEXT_CONTENT_TYPE, USER_AGENT_KEY,
};
use crate::request::{parsed, HttpRequest, RequestView};
use crate::scan::same_text;
use crate::status::HttpResponseStatus;
use crate::text::texts;

verus! {

/// What the server does next for a request.
#[derive(Debug, PartialEq)]
pub enum Action {
    /// Send this response.
    Reply(HttpResponse),
    /// Read the file of this name from the file directory, and send what
    /// `respond_file` makes of it.
    ReadFile(String),
}

/// What an action is, in the model.
pub ghost enum ActionView {
    Reply(ResponseView),
    ReadFile(Seq<char>),
}

impl View for Action {
    type V = ActionView;

    open spec fn view(&self) -> ActionView {
        match self {
            Action::Reply(response) => ActionView::Reply(response@),
            Action::ReadFile(name) => ActionView::ReadFile(name@),
        }
    }
}

/// The path segment at `depth`, if the path is that deep.
pub open spec fn segment(uri: Seq<Seq<char>>, depth: int) -> Option<Seq<char>> {
    if 0 <= depth < uri.len() {
        Some(uri[depth])
    } else {
        None
    }
}

/// A response with nothing but a status.
pub open spec fn bare(status: HttpResponseStatus) -> ResponseView {
    built(status, None, None, None)
}

/// A plain-text response with status 200.
pub open spec fn plain_text(body: Seq<char>) -> ResponseView {
    built(HttpResponseStatus::Okay, None, Some(body), Some(PLAIN_TEXT_CONTENT_TYPE@))
}

/// The answer of the echo endpoint, reached at `depth`: the next segment is
/// sent back as the body; without one the answer is empty.
pub open spec fn echo_response(request: RequestView, depth: int) -> ResponseView {
    match segment(request.uri, depth + 1) {
        None => bare(HttpResponseStatus::Okay),
        Some(message) => plain_text(message),
    }
}

/// The answer of the user-agent endpoint, reached at `depth`: the value of
/// the `User-Agent` header, empty if there is none. The endpoint has nothing
/// below it.
pub open spec fn user_agent_response(request: RequestView, depth: int) -> ResponseView {
    match segment(request.uri, depth + 1) {
        None => plain_text(
            if request.headers.contains_key(USER_AGENT_KEY@) {
                request.headers[USER_AGENT_KEY@]
            } else {
                Seq::empty()
            },
        ),
        Some(_) => bare(HttpResponseStatus::NotFound),
    }
}

/// What the files endpoint, reached at `depth`, does: the next segment names
/// the file to read; without one there is nothing to find.
pub open spec fn files_action(request: RequestView, depth: int) -> ActionView {
    match segment(request.uri, depth + 1) {
        None => ActionView::Reply(bare(HttpResponseStatus::NotFound)),
        Some(name) => ActionView::ReadFile(name),
    }
}

/// The answer for a file: its content as an octet stream, or not found.
pub open spec fn file_response(content: Option<Seq<char>>) -> ResponseView {
    match content {
        Some(text) => built(HttpResponseStatus::Okay, None, Some(text), Some(FILE_CONTENT_TYPE@)),
        None => bare(HttpResponseStatus::NotFound),
    }
}

/// What a `GET` request leads to. The path must start at the root; the
/// segment after it selects the endpoint.
pub open spec fn get_action(request: RequestView) -> ActionView {
    if segment(request.uri, 0) != Some("/"@) {
        ActionView::Reply(bare(HttpResponseStatus::NotFound))
    } else {
        match segment(request.uri, 1) {
            None => ActionView::Reply(bare(HttpResponseStatus::Okay)),
            Some(endpoint) => if endpoint == "echo/"@ {
                ActionView::Reply(echo_response(request, 1))
            } else if endpoint == "files/"@ {
                files_action(request, 1)
            } else if endpoint == "user-agent"@ {
                ActionView::Reply(user_agent_response(request, 1))
            } else {
                ActionView::Reply(bare(HttpResponseStatus::NotFound))
            },
        }
    }
}

/// What a request text leads to: a text with a defect is answered with
/// 404, a method other than `GET` with 501, and a `GET` is routed.
pub open spec fn connection_action(s: Seq<char>) -> ActionView {
    if defect(s) is Some {
        ActionView::Reply(bare(HttpResponseStatus::NotFound))
    } else if parsed(s).method == "GET"@ {
        get_action(parsed(s))
    } else {
        ActionView::Reply(bare(HttpResponseStatus::NotImplemented))
    }
}

/// The path segment at `depth`, if the path is that deep.
fn segment_at<'a>(uri: &Vec<&'a str>, depth: usize) -> (found: Option<&'a str>)
    ensures
        found is Some == segment(texts(uri@), depth as int) is Some,
        found matches Some(text) ==> Some(text@) == segment(texts(uri@), depth as int),
{
    if depth < uri.len() {
        Some(uri[depth])
    } else {
        None
    }
}

/// The path segment after the one at `depth`.
fn segment_after<'a>(uri: &Vec<&'a str>, depth: usize) -> (found: Option<&'a str>)
    ensures
        found is Some == segment(texts(uri@), depth + 1) is Some,
        found matches Some(text) ==> Some(text@) == segment(texts(uri@), depth + 1),
{
    if depth < usize::MAX {
        segment_at(uri, depth + 1)
    } else {
        assert(texts(uri@).len() == uri.len());
        None
    }
}

/// A response with nothing but a status.
fn respond_bare(status: HttpResponseStatus) -> (response: HttpResponse)
    ensures
        response@ == bare(status),
        response.wf(),
{
    HttpResponse::new(status, None, None, None)
}

/// A plain-text response with status 200.
fn respond_plain_text(body: String) -> (response: HttpResponse)
    ensures
        response@ == plain_text(body@),
        response.wf(),
{
    HttpResponse::new(
        HttpResponseStatus::Okay,
        None,
        Some(body),
        Some(String::from_str(PLAIN_TEXT_CONTENT_TYPE)),
    )
}

/// Answers at the echo endpoint.
pub fn respond_echo(http_request: &HttpRequest, depth: usize) -> (response: HttpResponse)
    ensures
        response@ == echo_response(http_request@, depth as int),
        response.wf(),
{
    match segment_after(&http_request.uri, depth) {
        None => respond_bare(HttpResponseStatus::Okay),
        Some(echo_message) => respond_plain_text(String::from_str(echo_message)),
    }
}

/// Answers at the user-agent endpoint.
pub fn respond_user_agent(http_request: &HttpRequest, depth: usize) -> (response: HttpResponse)
    ensures
        response@ == user_agent_response(http_request@, depth as int),
        response.wf(),
{
    match segment_after(&http_request.uri, depth) {
        None => {
            let user_agent = match http_request.headers.get(USER_AGENT_KEY) {
                Some(value) => value.clone(),
                None => String::new(),
            };
            respond_plain_text(user_agent)
        },
        Some(_) => respond_bare(HttpResponseStatus::NotFound),
    }
}

/// Decides at the files endpoint which file to read, if any.
pub fn respond_files(http_request: &HttpRequest, depth: usize) -> (action: Action)
    ensures
        action@ == files_action(http_request@, depth as int),
        action matches Action::Reply(response) ==> response.wf(),
{
    match segment_after(&http_request.uri, depth) {
        None => Action::Reply(respond_bare(HttpResponseStatus::NotFound)),
        Some(file_path) => Action::ReadFile(String::from_str(file_path)),
    }
}

/// Answers with a file's content, or with 404 if it could not be read.
pub fn respond_file(content: Option<String>) -> (response: HttpResponse)
    ensures
        response@ == file_response(
            match content {
                Some(text) => Some(text@),
                None => None,
            },
        ),
        response.wf(),
{
    match content {
        Some(file_content) => HttpResponse::new(
            HttpResponseStatus::Okay,
            None,
            Some(file_content),
            Some(String::from_str(FILE_CONTENT_TYPE)),
        ),
        None => respond_bare(HttpResponseStatus::NotFound),
    }
}

/// Routes a `GET` request.
pub fn process_get(http_request: &HttpRequest) -> (action: Action)
    ensures
        action@ == get_action(http_request@),
        action matches Action::Reply(response) ==> response.wf(),
{
    let depth: usize = 0;
    let at_root = match segment_at(&http_request.uri, depth) {
        Some(root) => same_text(root, "/"),
        None => false,
    };
    if !at_root {
        return Action::Reply(respond_bare(HttpResponseStatus::NotFound));
    }
    let depth: usize = 1;
    match segment_at(&http_request.uri, depth) {
        None => Action::Reply(respond_bare(HttpResponseStatus::Okay)),
        Some(endpoint) => {
            if same_text(endpoint, "echo/") {
                Action::Reply(respond_echo(http_request, depth))
            } else if same_text(endpoint, "files/") {
                respond_files(http_request, depth)
            } else if same_text(endpoint, "user-agent") {
                Action::Reply(respond_user_agent(http_request, depth))
            } else {
                Action::Reply(respond_bare(HttpResponseStatus::NotFound))
            }
        },
    }
}

/// Decides what to do for the request text read from a connection.
pub fn handle_connection(request: &str) -> (action: Action)
    ensures
        action@ == connection_action(request@),
        action matches Action::Reply(response) ==> response.wf(),
{
    match HttpRequest::from(request) {
        Ok(http_request) => {
            if same_text(http_request.method, "GET") {
                process_get(&http_request)
            } else {
                Action::Reply(respond_bare(HttpResponseStatus::NotImplemented))
            }
        },
        Err(_) => Action::Reply(respond_bare(HttpResponseStatus::NotFound)),
    }
}

} // verus!
