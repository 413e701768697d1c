//! Responses: a status, header fields and an optional body, and their form
//! on the wire.

use vstd::prelude::*;
use vstd::string::StrSliceExecFns;
use vstd::string::StringExecFns;
use vstd::utf8::encode_utf8;
use crate::headers::{
    distinct_names, lemma_put, lemma_put_lookup, lookup, names, put, Field, Headers,
};
use crate::scan::decimal_string;
use crate::status::HttpResponseStatus;
use crate::text::{decimal, index_of, lemma_index_of};

verus! {

pub const CONTENT_LENGTH_KEY: &'static str = "Content-Length";

pub const CONTENT_TYPE_KEY: &'static str = "Content-Type";

pub const USER_AGENT_KEY: &'static str = "User-Agent";

pub const PLAIN_TEXT_CONTENT_TYPE: &'static str = "text/plain";

pub const FILE_CONTENT_TYPE: &'static str = "application/octet-stream";

/// What a response holds: its status, its header fields in order, and its
/// body if it has one.
pub ghost struct ResponseView {
    pub status: HttpResponseStatus,
    pub fields: Seq<Field>,
    pub body: Option<Seq<char>>,
}

/// The headers that are computed from the body rather than set by hand.
pub open spec fn is_derived(name: Seq<char>) -> bool {
    name == CONTENT_LENGTH_KEY@ || name == CONTENT_TYPE_KEY@
}

/// The length of `text` in bytes.
pub open spec fn byte_len(text: Seq<char>) -> nat {
    encode_utf8(text).len()
}

/// `fields` with the two derived headers set for `body`.
pub open spec fn with_derived(fields: Seq<Field>, body: Seq<char>, content_type: Seq<char>) -> Seq<
    Field,
> {
    put(
        put(fields, CONTENT_LENGTH_KEY@, decimal(byte_len(body))),
        CONTENT_TYPE_KEY@,
        content_type,
    )
}

/// None of the fields is a derived header.
pub open spec fn no_derived(fields: Seq<Field>) -> bool {
    forall|i: int| 0 <= i < fields.len() ==> !is_derived(#[trigger] fields[i].0)
}

/// A response without a body names no derived header. A response keeps the
/// headers it was built from, so this holds of one built without a body
/// only if the headers supplied named none; from then on it is kept, since
/// no derived header can be set by hand.
pub open spec fn derived_need_body(response: ResponseView) -> bool {
    response.body is None ==> no_derived(response.fields)
}

/// A response with a body states the body's length in bytes and a content
/// type.
pub open spec fn consistent(response: ResponseView) -> bool {
    response.body matches Some(body) ==> {
        &&& lookup(response.fields, CONTENT_LENGTH_KEY@) == Some(decimal(byte_len(body)))
        &&& lookup(response.fields, CONTENT_TYPE_KEY@) is Some
    }
}

/// The response that `HttpResponse::new` builds. Without a body the headers
/// are as supplied; with one, the derived headers are set on top of them,
/// the content type being plain text unless one is given.
pub open spec fn built(
    status: HttpResponseStatus,
    headers: Option<Seq<Field>>,
    body: Option<Seq<char>>,
    content_type: Option<Seq<char>>,
) -> ResponseView {
    let supplied = match headers {
        Some(fields) => fields,
        None => Seq::empty(),
    };
    match body {
        None => ResponseView { status, fields: supplied, body: None },
        Some(text) => ResponseView {
            status,
            fields: with_derived(
                supplied,
                text,
                match content_type {
                    Some(given) => given,
                    None => PLAIN_TEXT_CONTENT_TYPE@,
                },
            ),
            body: Some(text),
        },
    }
}

/// `response` after `name` is set to `value` by hand: a derived header is
/// not touched, whether or not there is a body.
pub open spec fn with_header(response: ResponseView, name: Seq<char>, value: Seq<char>) -> ResponseView {
    if is_derived(name) {
        response
    } else {
        ResponseView { fields: put(response.fields, name, value), ..response }
    }
}

/// `response` after it is given the body `body` of type `content_type`.
pub open spec fn with_body(response: ResponseView, body: Seq<char>, content_type: Seq<char>) -> ResponseView {
    ResponseView {
        status: response.status,
        fields: with_derived(response.fields, body, content_type),
        body: Some(body),
    }
}

/// The status line, with its line ending.
pub open spec fn status_line(status: HttpResponseStatus) -> Seq<char> {
    "HTTP/1.1 "@ + decimal(status.spec_code() as nat) + " "@ + status.spec_message() + "\r\n"@
}

/// One header line, with its line ending.
pub open spec fn header_line(field: Field) -> Seq<char> {
    field.0 + ": "@ + field.1 + "\r\n"@
}

/// The header lines of `fields`, in order.
pub open spec fn header_lines(fields: Seq<Field>) -> Seq<char>
    decreases fields.len(),
{
    if fields.len() == 0 {
        Seq::empty()
    } else {
        header_lines(fields.drop_last()) + header_line(fields.last())
    }
}

/// The text of the body, empty if there is none.
pub open spec fn body_text(response: ResponseView) -> Seq<char> {
    match response.body {
        Some(body) => body,
        None => Seq::empty(),
    }
}

/// A response as text: status line, header lines, a blank line, the body.
pub open spec fn wire_text(response: ResponseView) -> Seq<char> {
    status_line(response.status) + header_lines(response.fields) + "\r\n"@ + body_text(response)
}

/// A response as the bytes that go on the wire.
pub open spec fn wire(response: ResponseView) -> Seq<u8> {
    encode_utf8(wire_text(response))
}

/// Setting the derived headers makes a response consistent with its body.
pub proof fn lemma_with_derived(fields: Seq<Field>, body: Seq<char>, content_type: Seq<char>)
    ensures
        lookup(with_derived(fields, body, content_type), CONTENT_LENGTH_KEY@) == Some(
            decimal(byte_len(body)),
        ),
        lookup(with_derived(fields, body, content_type), CONTENT_TYPE_KEY@) == Some(content_type),
        distinct_names(fields) ==> distinct_names(with_derived(fields, body, content_type)),
        forall|name: Seq<char>|
            !is_derived(name) ==> lookup(with_derived(fields, body, content_type), name) == lookup(
                fields,
                name,
            ),
{
    let length = decimal(byte_len(body));
    let first = put(fields, CONTENT_LENGTH_KEY@, length);
    lemma_put(fields, CONTENT_LENGTH_KEY@, length);
    lemma_put(first, CONTENT_TYPE_KEY@, content_type);
    lemma_derived_names_differ();
    lemma_put_lookup(fields, CONTENT_LENGTH_KEY@, length, CONTENT_LENGTH_KEY@);
    lemma_put_lookup(first, CONTENT_TYPE_KEY@, content_type, CONTENT_LENGTH_KEY@);
    lemma_put_lookup(first, CONTENT_TYPE_KEY@, content_type, CONTENT_TYPE_KEY@);
    assert forall|name: Seq<char>| !is_derived(name) implies lookup(
        with_derived(fields, body, content_type),
        name,
    ) == lookup(fields, name) by {
        lemma_put_lookup(fields, CONTENT_LENGTH_KEY@, length, name);
        lemma_put_lookup(first, CONTENT_TYPE_KEY@, content_type, name);
    }
}

/// Setting a header that is not derived brings in no derived header.
pub proof fn lemma_put_no_derived(fields: Seq<Field>, name: Seq<char>, value: Seq<char>)
    requires
        no_derived(fields),
        !is_derived(name),
    ensures
        no_derived(put(fields, name, value)),
{
    let after = put(fields, name, value);
    lemma_index_of(names(fields), name);
    assert forall|i: int| 0 <= i < after.len() implies !is_derived(#[trigger] after[i].0) by {
        if after[i].0 != name {
            assert(after[i] == fields[i]);
        }
    }
}

/// The two derived headers have different names.
pub proof fn lemma_derived_names_differ()
    ensures
        CONTENT_LENGTH_KEY@ != CONTENT_TYPE_KEY@,
{
    reveal_strlit("Content-Length");
    reveal_strlit("Content-Type");
    assert(CONTENT_LENGTH_KEY@[8] == 'L');
    assert(CONTENT_TYPE_KEY@[8] == 'T');
}

/// Encoding a text part by part gives the encoding of the whole.
pub proof fn lemma_encode_concat(a: Seq<char>, b: Seq<char>)
    ensures
        encode_utf8(a + b) == encode_utf8(a) + encode_utf8(b),
    decreases a.len(),
{
    if a.len() == 0 {
        assert(a + b =~= b);
        assert(encode_utf8(a) + encode_utf8(b) =~= encode_utf8(b));
    } else {
        lemma_encode_concat(a.drop_first(), b);
        assert((a + b).drop_first() =~= a.drop_first() + b);
        assert((a + b)[0] == a[0]);
        assert(encode_utf8(a + b) =~= encode_utf8(a) + encode_utf8(b));
    }
}

/// The header lines of a list are those of its front, then those of its back.
pub proof fn lemma_header_lines_concat(front: Seq<Field>, back: Seq<Field>)
    ensures
        header_lines(front + back) == header_lines(front) + header_lines(back),
    decreases back.len(),
{
    if back.len() == 0 {
        assert(front + back =~= front);
        assert(header_lines(front) + header_lines(back) =~= header_lines(front));
    } else {
        lemma_header_lines_concat(front, back.drop_last());
        assert((front + back).drop_last() =~= front + back.drop_last());
        assert((front + back).last() == back.last());
        assert(header_lines(front + back) =~= header_lines(front) + header_lines(back));
    }
}

/// A consistent response with a body carries, among its header lines, a
/// `Content-Length` line that states the body's length in bytes, and its
/// bytes end with those of the body.
pub proof fn lemma_body_on_wire(response: ResponseView)
    requires
        consistent(response),
        response.body is Some,
    ensures
        exists|i: int|
            0 <= i < response.fields.len() && #[trigger] response.fields[i] == (
                CONTENT_LENGTH_KEY@,
                decimal(byte_len(response.body->0)),
            ) && wire_text(response) == status_line(response.status) + header_lines(
                response.fields.take(i),
            ) + header_line(response.fields[i]) + header_lines(response.fields.skip(i + 1))
                + "\r\n"@ + response.body->0,
        wire(response).len() >= byte_len(response.body->0),
        wire(response).skip(wire(response).len() - byte_len(response.body->0)) == encode_utf8(
            response.body->0,
        ),
{
    let fields = response.fields;
    let body = response.body->0;
    let i = index_of(names(fields), CONTENT_LENGTH_KEY@);
    lemma_index_of(names(fields), CONTENT_LENGTH_KEY@);
    assert(names(fields)[i] == fields[i].0);
    assert(fields[i] == (CONTENT_LENGTH_KEY@, decimal(byte_len(body))));
    assert(fields =~= fields.take(i) + seq![fields[i]] + fields.skip(i + 1));
    lemma_header_lines_concat(fields.take(i) + seq![fields[i]], fields.skip(i + 1));
    lemma_header_lines_concat(fields.take(i), seq![fields[i]]);
    assert(seq![fields[i]].drop_last() =~= Seq::<Field>::empty());
    assert(header_lines(Seq::<Field>::empty()) =~= Seq::<char>::empty());
    assert(seq![fields[i]].last() == fields[i]);
    assert(header_lines(seq![fields[i]]) =~= header_line(fields[i]));
    assert(wire_text(response) =~= status_line(response.status) + header_lines(fields.take(i))
        + header_line(fields[i]) + header_lines(fields.skip(i + 1)) + "\r\n"@ + body);
    let head = status_line(response.status) + header_lines(fields) + "\r\n"@;
    lemma_encode_concat(head, body);
    assert(wire(response).skip(wire(response).len() - byte_len(body)) =~= encode_utf8(body));
}

/// A response built with a body states the body's length in bytes in a
/// `Content-Length` line, and its bytes end with those of the body.
pub proof fn lemma_built_with_body(
    status: HttpResponseStatus,
    headers: Option<Seq<Field>>,
    body: Seq<char>,
    content_type: Option<Seq<char>>,
)
    ensures
        ({
            let response = built(status, headers, Some(body), content_type);
            &&& consistent(response)
            &&& exists|i: int|
                0 <= i < response.fields.len() && #[trigger] response.fields[i] == (
                    CONTENT_LENGTH_KEY@,
                    decimal(byte_len(body)),
                ) && wire_text(response) == status_line(status) + header_lines(
                    response.fields.take(i),
                ) + header_line(response.fields[i]) + header_lines(response.fields.skip(i + 1))
                    + "\r\n"@ + body
            &&& wire(response).len() >= byte_len(body)
            &&& wire(response).skip(wire(response).len() - byte_len(body)) == encode_utf8(body)
        }),
{
    let response = built(status, headers, Some(body), content_type);
    let supplied = match headers {
        Some(fields) => fields,
        None => Seq::empty(),
    };
    let given = match content_type {
        Some(given) => given,
        None => PLAIN_TEXT_CONTENT_TYPE@,
    };
    lemma_with_derived(supplied, body, given);
    lemma_body_on_wire(response);
}

/// A response built without a body, from headers that name neither
/// `Content-Length` nor `Content-Type`, has no header of either name, and
/// its bytes end with the blank line.
pub proof fn lemma_built_without_body(
    status: HttpResponseStatus,
    headers: Option<Seq<Field>>,
    content_type: Option<Seq<char>>,
)
    requires
        headers matches Some(fields) ==> no_derived(fields),
    ensures
        ({
            let response = built(status, headers, None, content_type);
            &&& response.body is None
            &&& no_derived(response.fields)
            &&& derived_need_body(response)
            &&& lookup(response.fields, CONTENT_LENGTH_KEY@) is None
            &&& lookup(response.fields, CONTENT_TYPE_KEY@) is None
            &&& wire(response) == encode_utf8(
                status_line(status) + header_lines(response.fields) + "\r\n"@,
            )
        }),
{
    let response = built(status, headers, None, content_type);
    let fields = response.fields;
    lemma_index_of(names(fields), CONTENT_LENGTH_KEY@);
    lemma_index_of(names(fields), CONTENT_TYPE_KEY@);
    let i = index_of(names(fields), CONTENT_LENGTH_KEY@);
    if i < fields.len() {
        assert(names(fields)[i] == fields[i].0);
    }
    let j = index_of(names(fields), CONTENT_TYPE_KEY@);
    if j < fields.len() {
        assert(names(fields)[j] == fields[j].0);
    }
    assert(wire_text(response) =~= status_line(status) + header_lines(fields) + "\r\n"@);
}

/// Serialising is a function of the response: two serialisations of the
/// same response are the same bytes.
pub proof fn lemma_serialising_twice(response: &HttpResponse, first: Vec<u8>, second: Vec<u8>)
    requires
        first@ == wire(response@),
        second@ == wire(response@),
    ensures
        first@ == second@,
{
}

/// A response.
#[derive(Debug, PartialEq)]
pub struct HttpResponse {
    status_code: HttpResponseStatus,
    headers: Headers,
    body: Option<String>,
}

impl View for HttpResponse {
    type V = ResponseView;

    closed spec fn view(&self) -> ResponseView {
        ResponseView {
            status: self.status_code,
            fields: self.headers.fields(),
            body: match self.body {
                Some(body) => Some(body@),
                None => None,
            },
        }
    }
}

impl HttpResponse {
    /// The derived headers agree with the body, and no header name occurs
    /// twice. Every response that this module hands out is well formed,
    /// provided the headers it was given were.
    pub open spec fn wf(&self) -> bool {
        consistent(self@) && distinct_names(self@.fields)
    }

    /// A response with the given status, headers on top of which the derived
    /// ones are set if there is a body, and body.
    pub fn new(
        http_response_status: HttpResponseStatus,
        headers: Option<Headers>,
        body: Option<String>,
        content_type: Option<String>,
    ) -> (response: HttpResponse)
        ensures
            response@ == built(
                http_response_status,
                match headers {
                    Some(given) => Some(given.fields()),
                    None => None,
                },
                match body {
                    Some(text) => Some(text@),
                    None => None,
                },
                match content_type {
                    Some(given) => Some(given@),
                    None => None,
                },
            ),
            consistent(response@),
            (headers matches Some(given) ==> given.wf()) ==> response.wf(),
            (headers matches Some(given) ==> no_derived(given.fields())) ==> derived_need_body(
                response@,
            ),
    {
        let mut headers = match headers {
            Some(given) => given,
            None => Headers::new(),
        };
        match body {
            None => HttpResponse { status_code: http_response_status, headers, body: None },
            Some(body) => {
                let content_type = match content_type {
                    Some(given) => given,
                    None => String::from_str(PLAIN_TEXT_CONTENT_TYPE),
                };
                proof {
                    lemma_with_derived(headers.fields(), body@, content_type@);
                }
                Self::update_content_length(&mut headers, &body);
                Self::update_content_type(&mut headers, content_type);
                HttpResponse { status_code: http_response_status, headers, body: Some(body) }
            },
        }
    }

    /// The status.
    pub fn _status_code(&self) -> (status: &HttpResponseStatus)
        ensures
            *status == self@.status,
    {
        &self.status_code
    }

    /// The header fields.
    pub fn _headers(&self) -> (headers: &Headers)
        ensures
            headers.fields() == self@.fields,
            self.wf() ==> headers.wf(),
    {
        &self.headers
    }

    /// The body, empty if there is none.
    pub fn _body(&self) -> (body: &str)
        ensures
            body@ == body_text(self@),
    {
        match &self.body {
            Some(body) => body.as_str(),
            None => {
                proof {
                    reveal_strlit("");
                }
                assert(""@ =~= Seq::<char>::empty());
                ""
            },
        }
    }

    /// Changes the status and nothing else.
    pub fn _set_status_code(&mut self, status_code: HttpResponseStatus)
        ensures
            final(self)@ == (ResponseView { status: status_code, ..old(self)@ }),
            old(self).wf() ==> final(self).wf(),
            derived_need_body(old(self)@) ==> derived_need_body(final(self)@),
    {
        self.status_code = status_code;
    }

    /// Sets a header by hand. The derived headers cannot be set this way:
    /// for them the call changes nothing.
    pub fn _add_header(&mut self, key: String, value: String)
        ensures
            final(self)@ == with_header(old(self)@, key@, value@),
            old(self).wf() ==> final(self).wf(),
            derived_need_body(old(self)@) ==> derived_need_body(final(self)@),
    {
        let derived = key == String::from_str(CONTENT_LENGTH_KEY) || key == String::from_str(
            CONTENT_TYPE_KEY,
        );
        if !derived {
            proof {
                if no_derived(self.headers.fields()) {
                    lemma_put_no_derived(self.headers.fields(), key@, value@);
                }
                lemma_put(self.headers.fields(), key@, value@);
                lemma_put_lookup(
                    self.headers.fields(),
                    key@,
                    value@,
                    CONTENT_LENGTH_KEY@,
                );
                lemma_put_lookup(
                    self.headers.fields(),
                    key@,
                    value@,
                    CONTENT_TYPE_KEY@,
                );
            }
            self.headers.insert(key, value);
        }
    }

    /// Gives the response a body, and sets the derived headers for it.
    pub fn _set_body(&mut self, body: String, content_type: String)
        ensures
            final(self)@ == with_body(old(self)@, body@, content_type@),
            consistent(final(self)@),
            derived_need_body(final(self)@),
            old(self).wf() ==> final(self).wf(),
    {
        proof {
            lemma_with_derived(self.headers.fields(), body@, content_type@);
        }
        Self::update_content_length(&mut self.headers, &body);
        self.headers.insert(String::from_str(CONTENT_TYPE_KEY), content_type);
        self.body = Some(body);
    }

    /// Sets `Content-Length` to the length of `body` in bytes.
    fn update_content_length(headers: &mut Headers, body: &String)
        ensures
            final(headers).fields() == put(
                old(headers).fields(),
                CONTENT_LENGTH_KEY@,
                decimal(byte_len(body@)),
            ),
    {
        let length = body.as_str().as_bytes().len();
        headers.insert(String::from_str(CONTENT_LENGTH_KEY), decimal_string(length));
    }

    /// Sets `Content-Type`.
    fn update_content_type(headers: &mut Headers, content_type: String)
        ensures
            final(headers).fields() == put(old(headers).fields(), CONTENT_TYPE_KEY@, content_type@),
    {
        headers.insert(String::from_str(CONTENT_TYPE_KEY), content_type);
    }

    /// The response as the bytes that go on the wire.
    pub fn as_bytes(&self) -> (bytes: Vec<u8>)
        ensures
            bytes@ == wire(self@),
    {
        let mut text = String::from_str("HTTP/1.1 ");
        text.append(decimal_string(self.status_code.code() as usize).as_str());
        text.append(" ");
        text.append(self.status_code.message());
        text.append("\r\n");
        let ghost fields = self.headers.fields();
        let n = self.headers.len();
        let mut i: usize = 0;
        assert(fields.take(0) =~= Seq::<Field>::empty());
        assert(text@ =~= status_line(self.status_code) + header_lines(fields.take(0)));
        while i < n
            invariant
                i <= n,
                n == fields.len(),
                fields == self.headers.fields(),
                text@ == status_line(self.status_code) + header_lines(fields.take(i as int)),
            decreases n - i,
        {
            let (name, value) = self.headers.field(i);
            text.append(name);
            text.append(": ");
            text.append(value);
            text.append("\r\n");
            proof {
                assert(fields.take(i + 1).drop_last() =~= fields.take(i as int));
                assert(fields.take(i + 1).last() == fields[i as int]);
                assert(text@ =~= status_line(self.status_code) + header_lines(fields.take(i + 1)));
            }
            i += 1;
        }
        assert(fields.take(i as int) =~= fields);
        text.append("\r\n");
        text.append(self._body());
        assert(text@ =~= wire_text(self@));
        text.as_str().as_bytes_vec()
    }
}

} // verus!
