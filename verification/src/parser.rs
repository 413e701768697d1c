//! The request parser: from a request text to its parts, or to what is wrong
//! with it.

use vstd::prelude::*;
use vstd::string::StringExecFns;
use crate::grammar::{
    blank_index, body_block, defect, header_block, headers_of, is_blank, is_header, join,
    method_of, request_headers, target_of, tokens, version_of,
};
use crate::headers::Headers;
use crate::scan::{split_at_char, split_lines, trim_str};
use crate::text::{
    after, before, has_char, lemma_index_of, lemma_index_of_unique, lemma_split_unfold, lines,
    texts,
};

verus! {

/// Why a request text was refused.
#[derive(Debug, Clone, Copy, PartialEq, Eq, Structural)]
pub enum HttpRequestError {
    /// The text has no lines at all.
    MissingRequestLine,
    /// The request line is empty.
    MissingMethod,
    /// The request line ends after the method.
    MissingPath,
    /// The request line ends after the target.
    MissingVersion,
    /// A header line has no colon.
    InvalidHeader,
}

/// The parts of a request text up to its body, as slices of the text.
pub struct Head<'a> {
    pub method: &'a str,
    pub target: &'a str,
    pub version: &'a str,
    pub headers: Headers,
    pub body: Vec<&'a str>,
}

/// Reads the request line and the header lines of `request`, and collects the
/// lines that follow the blank line.
pub fn read_head<'a>(request: &'a str) -> (result: Result<Head<'a>, HttpRequestError>)
    ensures
        match result {
            Ok(head) => {
                &&& defect(request@) is None
                &&& head.method@ == method_of(request@)
                &&& head.target@ == target_of(request@)
                &&& head.version@ == version_of(request@)
                &&& head.headers@ == request_headers(request@)
                &&& head.headers.wf()
                &&& texts(head.body@) == body_block(request@)
            },
            Err(error) => defect(request@) == Some(error),
        },
{
    let rows = split_lines(request);
    let n = rows.len();
    if n == 0 {
        return Err(HttpRequestError::MissingRequestLine);
    }
    let ghost all = lines(request@);
    let ghost line = all[0];
    assert(texts(rows@)[0] == rows@[0]@);
    if rows[0].is_empty() {
        return Err(HttpRequestError::MissingMethod);
    }
    proof {
        lemma_split_unfold(line, ' ');
        lemma_split_unfold(after(line, ' '), ' ');
        lemma_split_unfold(after(after(line, ' '), ' '), ' ');
    }
    let (method, rest) = match split_at_char(rows[0], ' ') {
        Some(parts) => parts,
        None => {
            return Err(HttpRequestError::MissingPath);
        },
    };
    let (target, rest) = match split_at_char(rest, ' ') {
        Some(parts) => parts,
        None => {
            return Err(HttpRequestError::MissingVersion);
        },
    };
    let version = match split_at_char(rest, ' ') {
        Some(parts) => parts.0,
        None => rest,
    };
    proof {
        let t = tokens(request@);
        assert(t.skip(1)[0] == t[1]);
        assert(t.skip(1).skip(1)[0] == t[2]);
        if !has_char(rest@, ' ') {
            assert(before(rest@, ' ') =~= rest@);
        }
    }
    let ghost tail = all.skip(1);
    let mut headers = Headers::new();
    let mut i: usize = 1;
    let mut blank = false;
    assert(tail.take(0) =~= Seq::<Seq<char>>::empty());
    while i < n && !blank
        invariant
            1 <= i <= n,
            n == rows.len(),
            all == lines(request@),
            texts(rows@) == all,
            tail == all.skip(1),
            all.len() > 0,
            tokens(request@).len() >= 3,
            blank ==> i < n && is_blank(all[i as int]),
            forall|j: int| 0 <= j < i - 1 ==> !is_blank(tail[j]) && is_header(tail[j]),
            headers@ == headers_of(tail.take(i - 1)),
            headers.wf(),
        decreases n - i + if blank { 0int } else { 1int },
    {
        assert(texts(rows@)[i as int] == rows@[i as int]@);
        let row = trim_str(rows[i]);
        if row.is_empty() {
            blank = true;
        } else {
            match split_at_char(row, ':') {
                None => {
                    proof {
                        let flags = tail.map_values(|row: Seq<char>| is_blank(row));
                        assert(tail[i - 1] == all[i as int]);
                        assert(!is_blank(tail[i - 1]));
                        assert forall|j: int| 0 <= j < i implies flags[j] != true by {
                            assert(flags[j] == is_blank(tail[j]));
                        }
                        lemma_index_of(flags, true);
                        let b = blank_index(tail);
                        if b < i {
                            assert(flags[b] == true);
                        }
                        assert(header_block(request@)[i - 1] == tail[i - 1]);
                        assert(!is_header(header_block(request@)[i - 1]));
                    }
                    return Err(HttpRequestError::InvalidHeader);
                },
                Some((name, value)) => {
                    let name = String::from_str(trim_str(name));
                    let value = String::from_str(trim_str(value));
                    headers.insert(name, value);
                    proof {
                        assert(tail[i - 1] == all[i as int]);
                        assert(tail.take(i as int).drop_last() =~= tail.take(i - 1));
                        assert(tail.take(i as int).last() == tail[i - 1]);
                    }
                },
            }
            i += 1;
        }
    }
    proof {
        let flags = tail.map_values(|row: Seq<char>| is_blank(row));
        assert forall|j: int| 0 <= j < i - 1 implies flags[j] != true by {
            assert(flags[j] == is_blank(tail[j]));
        }
        if blank {
            assert(flags[i - 1] == is_blank(tail[i - 1]));
        }
        lemma_index_of_unique(flags, true, i - 1);
        assert(blank_index(tail) == i - 1);
        assert(header_block(request@) =~= tail.take(i - 1));
    }
    let start: usize = if i < n {
        i + 1
    } else {
        n
    };
    let mut body: Vec<&'a str> = Vec::new();
    let mut k: usize = start;
    assert(texts(body@) =~= texts(rows@).subrange(start as int, k as int));
    while k < n
        invariant
            start <= k <= n,
            n == rows.len(),
            texts(body@) == texts(rows@).subrange(start as int, k as int),
        decreases n - k,
    {
        let ghost before_push = body@;
        body.push(rows[k]);
        assert(texts(body@) =~= texts(before_push).push(rows@[k as int]@));
        assert(texts(body@) =~= texts(rows@).subrange(start as int, k + 1));
        k += 1;
    }
    assert(texts(body@) =~= body_block(request@));
    Ok(Head { method, target, version, headers, body })
}

/// A request, owning its parts.
///
/// Header names are compared exactly as written, case included.
#[derive(Debug, PartialEq)]
pub struct HttpRequest {
    pub method: String,
    pub target: String,
    pub version: String,
    pub headers: Headers,
    pub body: String,
}

/// What a request says.
pub ghost struct RequestView {
    pub method: Seq<char>,
    pub target: Seq<char>,
    pub version: Seq<char>,
    pub headers: Map<Seq<char>, Seq<char>>,
    pub body: Seq<char>,
}

impl View for HttpRequest {
    type V = RequestView;

    open spec fn view(&self) -> RequestView {
        RequestView {
            method: self.method@,
            target: self.target@,
            version: self.version@,
            headers: self.headers@,
            body: self.body@,
        }
    }
}

/// What a request text without defect says. The body is what follows the
/// blank line, its lines joined without their terminators.
pub open spec fn parsed(s: Seq<char>) -> RequestView {
    RequestView {
        method: method_of(s),
        target: target_of(s),
        version: version_of(s),
        headers: request_headers(s),
        body: join(body_block(s)),
    }
}

impl HttpRequest {
    /// Parses a request text: succeeds exactly on the texts without defect,
    /// and otherwise names the defect.
    pub fn parse(request: &str) -> (result: Result<HttpRequest, HttpRequestError>)
        ensures
            match result {
                Ok(parsed_request) => {
                    &&& defect(request@) is None
                    &&& parsed_request@ == parsed(request@)
                    &&& parsed_request.headers.wf()
                },
                Err(error) => defect(request@) == Some(error),
            },
    {
        let head = match read_head(request) {
            Ok(head) => head,
            Err(error) => {
                return Err(error);
            },
        };
        let mut body = String::new();
        let mut k: usize = 0;
        assert(texts(head.body@).take(0) =~= Seq::<Seq<char>>::empty());
        while k < head.body.len()
            invariant
                k <= head.body.len(),
                body@ == join(texts(head.body@).take(k as int)),
            decreases head.body.len() - k,
        {
            body.append(head.body[k]);
            proof {
                let rows = texts(head.body@);
                assert(rows.take(k + 1).drop_last() =~= rows.take(k as int));
                assert(rows.take(k + 1).last() == head.body@[k as int]@);
            }
            k += 1;
        }
        assert(texts(head.body@).take(k as int) =~= texts(head.body@));
        Ok(
            HttpRequest {
                method: String::from_str(head.method),
                target: String::from_str(head.target),
                version: String::from_str(head.version),
                headers: head.headers,
                body,
            },
        )
    }
}

} // verus!
