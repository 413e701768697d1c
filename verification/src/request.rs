//! Requests as the router sees them: slices of the request text, with the
//! target cut into path segments.

use vstd::prelude::*;
use crate::grammar::{body_block, defect, method_of, request_headers, target_of, version_of};
use crate::headers::Headers;
use crate::parser::read_head;
use crate::scan::split_segments;
use crate::text::{split_inclusive, texts};

pub use crate::parser::HttpRequestError;

verus! {

/// A request whose parts borrow from the text it was read from.
///
/// `uri` holds the path segments of the target: each segment but possibly
/// the last ends with its `/`, so `/echo/abc` is `/`, `echo/`, `abc`.
/// Header names are compared exactly as written, case included.
#[derive(Debug, PartialEq)]
pub struct HttpRequest<'a> {
    pub method: &'a str,
    pub uri: Vec<&'a str>,
    pub version: &'a str,
    pub headers: Headers,
    pub body: &'a str,
}

/// What a request says.
pub ghost struct RequestView {
    pub method: Seq<char>,
    pub uri: Seq<Seq<char>>,
    pub version: Seq<char>,
    pub headers: Map<Seq<char>, Seq<char>>,
    pub body: Seq<char>,
}

impl<'a> View for HttpRequest<'a> {
    type V = RequestView;

    open spec fn view(&self) -> RequestView {
        RequestView {
            method: self.method@,
            uri: texts(self.uri@),
            version: self.version@,
            headers: self.headers@,
            body: self.body@,
        }
    }
}

/// What a request text without defect says. The body is the first line
/// after the blank line, if there is one; further lines are not kept.
pub open spec fn parsed(s: Seq<char>) -> RequestView {
    RequestView {
        method: method_of(s),
        uri: split_inclusive(target_of(s), '/'),
        version: version_of(s),
        headers: request_headers(s),
        body: if body_block(s).len() == 0 {
            Seq::empty()
        } else {
            body_block(s)[0]
        },
    }
}

impl<'a> HttpRequest<'a> {
    /// Parses a request text: succeeds exactly on the texts without defect,
    /// and otherwise names the defect.
    pub fn from(request: &'a str) -> (result: Result<HttpRequest<'a>, HttpRequestError>)
        ensures
            match result {
                Ok(parsed_request) => {
                    &&& defect(request@) is None
                    &&& parsed_request@ == parsed(request@)
                    &&& parsed_request.headers.wf()
                },
                Err(error) => defect(request@) == Some(error),
            },
    {
        let head = match read_head(request) {
            Ok(head) => head,
            Err(error) => {
                return Err(error);
            },
        };
        let uri = split_segments(head.target, '/');
        let body = if head.body.len() == 0 {
            ""
        } else {
            head.body[0]
        };
        proof {
            reveal_strlit("");
            if head.body.len() == 0 {
                assert(body@ =~= Seq::<char>::empty());
            } else {
                assert(texts(head.body@)[0] == head.body@[0]@);
            }
        }
        Ok(HttpRequest { method: head.method, uri, version: head.version, headers: head.headers, body })
    }
}

} // verus!
