//! Responses and the response writer.

use crate::bytes::{append, ascii, decimal, decimal_bytes, literal, COLON, CR, LF};
use crate::header::{headers_view, Header, HeaderView};
use vstd::prelude::*;

verus! {

/// The status of a response.
#[derive(Clone, Copy, Debug, PartialEq, Eq, Structural)]
pub enum Status {
    /// 200 OK
    Success,
    /// 201 Created
    Created,
    /// 404 Not Found
    NotFound,
}

impl Status {
    /// The status code.
    pub open spec fn spec_code(self) -> u16 {
        match self {
            Status::Success => 200,
            Status::Created => 201,
            Status::NotFound => 404,
        }
    }

    /// The status line, without its line terminator.
    pub open spec fn line(self) -> Seq<u8> {
        match self {
            Status::Success => ascii("HTTP/1.1 200 OK"@),
            Status::Created => ascii("HTTP/1.1 201 Created"@),
            Status::NotFound => ascii("HTTP/1.1 404 Not Found"@),
        }
    }

    /// The status code.
    #[verifier::when_used_as_spec(spec_code)]
    pub fn code(self) -> (code: u16)
        ensures
            code == self.spec_code(),
    {
        match self {
            Status::Success => 200,
            Status::Created => 201,
            Status::NotFound => 404,
        }
    }

    /// The status line, without its line terminator.
    pub fn line_bytes(self) -> (out: Vec<u8>)
        ensures
            out@ == self.line(),
    {
        match self {
            Status::Success => {
                proof {
                    reveal_strlit("HTTP/1.1 200 OK");
                }
                literal("HTTP/1.1 200 OK")
            },
            Status::Created => {
                proof {
                    reveal_strlit("HTTP/1.1 201 Created");
                }
                literal("HTTP/1.1 201 Created")
            },
            Status::NotFound => {
                proof {
                    reveal_strlit("HTTP/1.1 404 Not Found");
                }
                literal("HTTP/1.1 404 Not Found")
            },
        }
    }
}

/// One response: a status, the header fields in the order in which they are
/// written, and the body.
#[derive(Clone, Debug, PartialEq, Eq)]
pub struct Response {
    pub status: Status,
    pub headers: Vec<Header>,
    pub body: Vec<u8>,
}

/// The mathematical value of a [`Response`].
pub struct ResponseView {
    pub status: Status,
    pub headers: Seq<HeaderView>,
    pub body: Seq<u8>,
}

impl View for Response {
    type V = ResponseView;

    open spec fn view(&self) -> ResponseView {
        ResponseView {
            status: self.status,
            headers: headers_view(self.headers@),
            body: self.body@,
        }
    }
}

/// The media type of the echo and user-agent routes.
pub open spec fn text_plain() -> Seq<u8> {
    ascii("text/plain"@)
}

/// The media type of served files.
pub open spec fn octet_stream() -> Seq<u8> {
    ascii("application/octet-stream"@)
}

/// The response with the given status, no headers and an empty body.
pub open spec fn empty_response(status: Status) -> ResponseView {
    ResponseView { status, headers: Seq::empty(), body: Seq::empty() }
}

/// The 200 response that carries `body`: a `Content-Type` header with the
/// given media type, then a `Content-Length` header with the length of the
/// body in decimal.
pub open spec fn content_response(media_type: Seq<u8>, body: Seq<u8>) -> ResponseView {
    ResponseView {
        status: Status::Success,
        headers: seq![
            HeaderView { name: ascii("Content-Type"@), value: media_type },
            HeaderView { name: ascii("Content-Length"@), value: decimal(body.len()) },
        ],
        body,
    }
}

/// The response of the echo and user-agent routes.
pub open spec fn text_response(body: Seq<u8>) -> ResponseView {
    content_response(text_plain(), body)
}

/// The response that serves a file's content.
pub open spec fn file_response(body: Seq<u8>) -> ResponseView {
    content_response(octet_stream(), body)
}

/// The line terminator of the wire format.
pub open spec fn crlf() -> Seq<u8> {
    seq![CR, LF]
}

/// One header as it is written: name, colon, space, value, line terminator.
pub open spec fn header_line(header: HeaderView) -> Seq<u8> {
    header.name + seq![COLON, 32u8] + header.value + crlf()
}

/// The header lines of a response, in order.
pub open spec fn header_block(headers: Seq<HeaderView>) -> Seq<u8>
    decreases headers.len(),
{
    if headers.len() == 0 {
        Seq::empty()
    } else {
        header_block(headers.drop_last()) + header_line(headers.last())
    }
}

/// The bytes of a response on the wire: the status line, the header lines, a
/// blank line and the body.
pub open spec fn wire(response: ResponseView) -> Seq<u8> {
    response.status.line() + crlf() + header_block(response.headers) + crlf() + response.body
}

/// The 200 response that carries `body` under the given media type.
fn with_content(media_type: Vec<u8>, body: Vec<u8>) -> (r: Response)
    ensures
        r@ == content_response(media_type@, body@),
{
    proof {
        reveal_strlit("Content-Type");
        reveal_strlit("Content-Length");
    }
    let mut headers: Vec<Header> = Vec::new();
    headers.push(Header { name: literal("Content-Type"), value: media_type });
    headers.push(Header { name: literal("Content-Length"), value: decimal_bytes(body.len()) });
    assert(headers_view(headers@) =~= content_response(media_type@, body@).headers);
    Response { status: Status::Success, headers, body }
}

impl Response {
    /// The response with the given status, no headers and an empty body.
    pub fn empty(status: Status) -> (r: Response)
        ensures
            r@ == empty_response(status),
    {
        let r = Response { status, headers: Vec::new(), body: Vec::new() };
        assert(r@.headers =~= Seq::<HeaderView>::empty());
        r
    }

    /// The 200 response that carries `body` as plain text.
    pub fn text(body: Vec<u8>) -> (r: Response)
        ensures
            r@ == text_response(body@),
    {
        proof {
            reveal_strlit("text/plain");
        }
        with_content(literal("text/plain"), body)
    }

    /// The 200 response that carries `body` as the content of a file.
    pub fn file(body: Vec<u8>) -> (r: Response)
        ensures
            r@ == file_response(body@),
    {
        proof {
            reveal_strlit("application/octet-stream");
        }
        with_content(literal("application/octet-stream"), body)
    }

    /// Writes the response out: the status line, each header as
    /// `Name: Value`, a blank line, then the body, with CRLF after the status
    /// line and after every header.
    pub fn to_bytes(&self) -> (out: Vec<u8>)
        ensures
            out@ == wire(self@),
    {
        let ghost headers = headers_view(self.headers@);
        let mut out = self.status.line_bytes();
        out.push(CR);
        out.push(LF);
        let mut i: usize = 0;
        while i < self.headers.len()
            invariant
                i <= self.headers@.len(),
                headers == headers_view(self.headers@),
                out@ == self.status.line() + crlf() + header_block(headers.take(i as int)),
            decreases self.headers@.len() - i,
        {
            let header = &self.headers[i];
            append(&mut out, header.name.as_slice());
            out.push(COLON);
            out.push(32);
            append(&mut out, header.value.as_slice());
            out.push(CR);
            out.push(LF);
            assert(headers.take(i + 1).drop_last() =~= headers.take(i as int));
            i += 1;
        }
        assert(headers.take(i as int) =~= headers);
        out.push(CR);
        out.push(LF);
        append(&mut out, self.body.as_slice());
        out
    }
}

} // verus!
