//! Response status codes and their reason phrases.

use vstd::prelude::*;

verus! {

/// The statuses this server can answer with.
#[derive(Debug, Clone, Copy, PartialEq, Eq, Structural)]
pub enum HttpResponseStatus {
    Okay,
    BadRequest,
    Unauthorized,
    Forbidden,
    NotFound,
    InternalServerError,
    NotImplemented,
    BadGateway,
    ServiceUnavailable,
}

impl HttpResponseStatus {
    /// The numeric status code.
    pub open spec fn spec_code(self) -> u16 {
        match self {
            Self::Okay => 200,
            Self::BadRequest => 400,
            Self::Unauthorized => 401,
            Self::Forbidden => 403,
            Self::NotFound => 404,
            Self::InternalServerError => 500,
            Self::NotImplemented => 501,
            Self::BadGateway => 502,
            Self::ServiceUnavailable => 503,
        }
    }

    /// The reason phrase that accompanies the code on the status line.
    pub open spec fn spec_message(self) -> Seq<char> {
        match self {
            Self::Okay => "OK"@,
            Self::BadRequest => "Bad Request"@,
            Self::Unauthorized => "Unauthorized"@,
            Self::Forbidden => "Forbidden"@,
            Self::NotFound => "Not Found"@,
            Self::InternalServerError => "Internal Server Error"@,
            Self::NotImplemented => "Not Implemented"@,
            Self::BadGateway => "Bad Gateway"@,
            Self::ServiceUnavailable => "Service Unavailable"@,
        }
    }

    /// The numeric status code.
    pub fn code(&self) -> (code: u16)
        ensures
            code == self.spec_code(),
    {
        match self {
            Self::Okay => 200,
            Self::BadRequest => 400,
            Self::Unauthorized => 401,
            Self::Forbidden => 403,
            Self::NotFound => 404,
            Self::InternalServerError => 500,
            Self::NotImplemented => 501,
            Self::BadGateway => 502,
            Self::ServiceUnavailable => 503,
        }
    }

    /// The reason phrase.
    pub fn message(&self) -> (message: &'static str)
        ensures
            message@ == self.spec_message(),
    {
        match self {
            Self::Okay => "OK",
            Self::BadRequest => "Bad Request",
            Self::Unauthorized => "Unauthorized",
            Self::Forbidden => "Forbidden",
            Self::NotFound => "Not Found",
            Self::InternalServerError => "Internal Server Error",
            Self::NotImplemented => "Not Implemented",
            Self::BadGateway => "Bad Gateway",
            Self::ServiceUnavailable => "Service Unavailable",
        }
    }
}

} // verus!
