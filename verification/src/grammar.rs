//! The shape of a request text, in ghost code.
//!
//! A request is a request line, then header lines up to the first blank
//! line, then the body:
//!
//! ```text
//! <method> <target> <version>
//! <name>: <value>
//! ...
//!
//! <body>
//! ```

use vstd::prelude::*;
use crate::parser::HttpRequestError;
use crate::text::{after, before, has_char, index_of, lines, split, trim};

verus! {

/// A line with nothing but whitespace on it.
pub open spec fn is_blank(line: Seq<char>) -> bool {
    trim(line).len() == 0
}

/// The position of the first blank line among `rows`, or their number if
/// none is blank.
pub open spec fn blank_index(rows: Seq<Seq<char>>) -> int {
    index_of(rows.map_values(|row: Seq<char>| is_blank(row)), true)
}

/// The rows before the first blank one.
pub open spec fn header_rows(rows: Seq<Seq<char>>) -> Seq<Seq<char>> {
    rows.take(blank_index(rows))
}

/// The rows after the first blank one.
pub open spec fn body_rows(rows: Seq<Seq<char>>) -> Seq<Seq<char>> {
    if blank_index(rows) < rows.len() {
        rows.skip(blank_index(rows) + 1)
    } else {
        Seq::empty()
    }
}

/// A header line has a colon.
pub open spec fn is_header(line: Seq<char>) -> bool {
    has_char(trim(line), ':')
}

/// The name on a header line: what stands before the first colon, trimmed.
pub open spec fn header_name(line: Seq<char>) -> Seq<char> {
    trim(before(trim(line), ':'))
}

/// The value on a header line: what stands after the first colon, trimmed.
pub open spec fn header_value(line: Seq<char>) -> Seq<char> {
    trim(after(trim(line), ':'))
}

/// The headers that `rows` set, a later line overriding an earlier one of
/// the same name.
pub open spec fn headers_of(rows: Seq<Seq<char>>) -> Map<Seq<char>, Seq<char>>
    decreases rows.len(),
{
    if rows.len() == 0 {
        Map::empty()
    } else {
        headers_of(rows.drop_last()).insert(header_name(rows.last()), header_value(rows.last()))
    }
}

/// The rows joined end to end, with nothing between them.
pub open spec fn join(rows: Seq<Seq<char>>) -> Seq<char>
    decreases rows.len(),
{
    if rows.len() == 0 {
        Seq::empty()
    } else {
        join(rows.drop_last()) + rows.last()
    }
}

/// The tokens of a line: the pieces between its single spaces. An empty
/// line has no tokens. Two spaces in a row, or a space at either end of the
/// line, enclose an empty token.
pub open spec fn words(line: Seq<char>) -> Seq<Seq<char>> {
    if line.len() == 0 {
        Seq::empty()
    } else {
        split(line, ' ')
    }
}

/// The tokens of the request line.
pub open spec fn tokens(s: Seq<char>) -> Seq<Seq<char>>
    recommends
        lines(s).len() > 0,
{
    words(lines(s)[0])
}

/// The header lines of a request.
pub open spec fn header_block(s: Seq<char>) -> Seq<Seq<char>> {
    header_rows(lines(s).skip(1))
}

/// The lines of a request that follow the blank line.
pub open spec fn body_block(s: Seq<char>) -> Seq<Seq<char>> {
    body_rows(lines(s).skip(1))
}

/// What is wrong with a request text, if anything. The request line is
/// judged first, then the header lines.
///
/// The request line needs three tokens, and the first one that it lacks is
/// named: an empty request line lacks its method, one without a space its
/// path, one with a single space its version. Tokens are taken as they
/// stand, so a request line that starts with a space has a method, the empty
/// one, and lacks nothing on that account.
pub open spec fn defect(s: Seq<char>) -> Option<HttpRequestError> {
    if lines(s).len() == 0 {
        Some(HttpRequestError::MissingRequestLine)
    } else if tokens(s).len() == 0 {
        Some(HttpRequestError::MissingMethod)
    } else if tokens(s).len() == 1 {
        Some(HttpRequestError::MissingPath)
    } else if tokens(s).len() == 2 {
        Some(HttpRequestError::MissingVersion)
    } else if exists|i: int| 0 <= i < header_block(s).len() && !is_header(#[trigger] header_block(s)[i]) {
        Some(HttpRequestError::InvalidHeader)
    } else {
        None
    }
}

/// The method of a request: the first token of its request line.
pub open spec fn method_of(s: Seq<char>) -> Seq<char> {
    tokens(s)[0]
}

/// The target of a request: the second token of its request line.
pub open spec fn target_of(s: Seq<char>) -> Seq<char> {
    tokens(s)[1]
}

/// The version of a request: the third token of its request line.
pub open spec fn version_of(s: Seq<char>) -> Seq<char> {
    tokens(s)[2]
}

/// The headers of a request.
pub open spec fn request_headers(s: Seq<char>) -> Map<Seq<char>, Seq<char>> {
    headers_of(header_block(s))
}

} // verus!
