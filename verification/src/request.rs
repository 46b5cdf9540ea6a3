//! The request parser: from the raw bytes of a connection to the method,
//! path, headers and body that the handlers need.

use crate::bytes::{
    copy_range, find, find_byte, lemma_find_is_first, skip_spaces, skip_spaces_in, skip_token,
    skip_token_in, strip_nul_bytes, strip_nuls, CR, LF,
};
use crate::error::ConnectionError;
use crate::header::{header_of, headers_view, parse_header, Header, HeaderView};
use vstd::prelude::*;
use vstd::slice::slice_subrange;

verus! {

/// The method and path of a request line. The version that follows them is
/// not kept.
#[derive(Clone, Debug, PartialEq, Eq)]
pub struct RequestLine {
    pub method: Vec<u8>,
    pub path: Vec<u8>,
}

/// The mathematical value of a [`RequestLine`].
pub struct RequestLineView {
    pub method: Seq<u8>,
    pub path: Seq<u8>,
}

impl View for RequestLine {
    type V = RequestLineView;

    open spec fn view(&self) -> RequestLineView {
        RequestLineView { method: self.method@, path: self.path@ }
    }
}

/// One parsed request.
#[derive(Clone, Debug, PartialEq, Eq)]
pub struct Request {
    /// The first token of the request line.
    pub method: Vec<u8>,
    /// The second token of the request line.
    pub path: Vec<u8>,
    /// The header fields sent before the blank line, in order.
    pub headers: Vec<Header>,
    /// The bytes after the blank line, without trailing NUL padding.
    pub body: Vec<u8>,
}

/// The mathematical value of a [`Request`].
pub struct RequestView {
    pub method: Seq<u8>,
    pub path: Seq<u8>,
    pub headers: Seq<HeaderView>,
    pub body: Seq<u8>,
}

impl View for Request {
    type V = RequestView;

    open spec fn view(&self) -> RequestView {
        RequestView {
            method: self.method@,
            path: self.path@,
            headers: headers_view(self.headers@),
            body: self.body@,
        }
    }
}

/// `line` without one trailing carriage return.
pub open spec fn strip_cr(line: Seq<u8>) -> Seq<u8> {
    if line.len() > 0 && line.last() == CR {
        line.drop_last()
    } else {
        line
    }
}

/// The line of `s` that begins at `start`: the bytes up to the next line feed,
/// or to the end of `s`, without one trailing carriage return.
pub open spec fn line_at(s: Seq<u8>, start: int) -> Seq<u8>
    recommends
        0 <= start <= s.len(),
{
    strip_cr(s.subrange(start, find(s, LF, start)))
}

/// Where the line after the one that begins at `start` begins: right after
/// the next line feed, or at the end of `s` when no line feed follows.
pub open spec fn next_line(s: Seq<u8>, start: int) -> int {
    if find(s, LF, start) < s.len() {
        find(s, LF, start) + 1
    } else {
        s.len() as int
    }
}

/// The method and path that a request line holds: its first two tokens,
/// where tokens are separated by whitespace. A line with fewer than two
/// tokens is malformed.
pub open spec fn request_line(line: Seq<u8>) -> Result<RequestLineView, ConnectionError> {
    let method_start = skip_spaces(line, 0);
    let method_end = skip_token(line, method_start);
    let path_start = skip_spaces(line, method_end);
    let path_end = skip_token(line, path_start);
    if path_start < line.len() {
        Ok(
            RequestLineView {
                method: line.subrange(method_start, method_end),
                path: line.subrange(path_start, path_end),
            },
        )
    } else {
        Err(ConnectionError::MalformedRequestLine)
    }
}

/// The headers held by the lines of `s` from the line that begins at `start`
/// up to the first blank line or the end of `s`. Lines that hold no header
/// are passed over.
pub open spec fn headers_from(s: Seq<u8>, start: int) -> Seq<HeaderView>
    recommends
        0 <= start,
    decreases s.len() - start,
{
    if start < 0 || start >= s.len() || line_at(s, start).len() == 0 {
        Seq::empty()
    } else {
        proof {
            lemma_find_is_first(s, LF, start);
        }
        let rest = headers_from(s, next_line(s, start));
        match header_of(line_at(s, start)) {
            Some(header) => seq![header] + rest,
            None => rest,
        }
    }
}

/// Where the body of `s` begins: right after the first blank line among the
/// lines from the one that begins at `start`, or at the end of `s` when there
/// is no blank line.
pub open spec fn body_offset(s: Seq<u8>, start: int) -> int
    recommends
        0 <= start,
    decreases s.len() - start,
{
    if start < 0 || start >= s.len() {
        s.len() as int
    } else if line_at(s, start).len() == 0 {
        next_line(s, start)
    } else {
        proof {
            lemma_find_is_first(s, LF, start);
        }
        body_offset(s, next_line(s, start))
    }
}

/// The request that a buffer holds. The first line is the request line; the
/// lines after it up to the first blank line are the headers; what follows
/// the blank line, without trailing NUL bytes, is the body.
pub open spec fn request_of(buffer: Seq<u8>) -> Result<RequestView, ConnectionError> {
    match request_line(line_at(buffer, 0)) {
        Ok(line) => Ok(
            RequestView {
                method: line.method,
                path: line.path,
                headers: headers_from(buffer, next_line(buffer, 0)),
                body: strip_nuls(buffer.skip(body_offset(buffer, next_line(buffer, 0)))),
            },
        ),
        Err(e) => Err(e),
    }
}

/// Splits a request line into its method and path.
///
/// Fails exactly when the line holds fewer than two whitespace-separated
/// tokens.
pub fn parse_request_line(line: &[u8]) -> (r: Result<RequestLine, ConnectionError>)
    ensures
        match r {
            Ok(parsed) => request_line(line@) == Ok::<RequestLineView, ConnectionError>(parsed@),
            Err(e) => request_line(line@) == Err::<RequestLineView, ConnectionError>(e),
        },
{
    let method_start = skip_spaces_in(line, 0);
    let method_end = skip_token_in(line, method_start);
    let path_start = skip_spaces_in(line, method_end);
    let path_end = skip_token_in(line, path_start);
    if path_start < line.len() {
        Ok(
            RequestLine {
                method: copy_range(line, method_start, method_end),
                path: copy_range(line, path_start, path_end),
            },
        )
    } else {
        Err(ConnectionError::MalformedRequestLine)
    }
}

/// The line of `buffer` that begins at `start`, and where the next one
/// begins, held to the length of the buffer.
fn read_line(buffer: &[u8], start: usize) -> (r: (&[u8], usize))
    requires
        start <= buffer@.len(),
    ensures
        r.0@ == line_at(buffer@, start as int),
        start < buffer@.len() ==> start < r.1,
        r.1 <= buffer@.len(),
        r.1 == next_line(buffer@, start as int),
{
    let end = find_byte(buffer, LF, start);
    let next = if end < buffer.len() {
        end + 1
    } else {
        buffer.len()
    };
    let stop = if end > start && buffer[end - 1] == CR {
        end - 1
    } else {
        end
    };
    (slice_subrange(buffer, start, stop), next)
}

/// Parses the bytes read from a connection into a request.
///
/// Fails exactly when the first line holds fewer than two tokens.
pub fn parse_request(buffer: &[u8]) -> (r: Result<Request, ConnectionError>)
    ensures
        match r {
            Ok(request) => request_of(buffer@) == Ok::<RequestView, ConnectionError>(request@),
            Err(e) => request_of(buffer@) == Err::<RequestView, ConnectionError>(e),
        },
{
    let (first, after_first) = read_line(buffer, 0);
    let line = match parse_request_line(first) {
        Ok(line) => line,
        Err(e) => {
            return Err(e);
        },
    };
    let ghost begin = next_line(buffer@, 0);
    let mut headers: Vec<Header> = Vec::new();
    let mut start: usize = after_first;
    let mut body_at: usize = buffer.len();
    let mut in_head: bool = true;
    while in_head && start < buffer.len()
        invariant
            start <= buffer@.len(),
            body_at <= buffer@.len(),
            in_head ==> body_at == buffer@.len(),
            in_head ==> headers_view(headers@) + headers_from(buffer@, start as int)
                == headers_from(buffer@, begin),
            in_head ==> body_offset(buffer@, start as int) == body_offset(buffer@, begin),
            !in_head ==> headers_view(headers@) == headers_from(buffer@, begin),
            !in_head ==> body_at == body_offset(buffer@, begin),
        decreases buffer@.len() - start, in_head as int,
    {
        let (current, next) = read_line(buffer, start);
        if current.len() == 0 {
            body_at = next;
            in_head = false;
        } else {
            match parse_header(current) {
                Some(header) => headers.push(header),
                None => {},
            }
            start = next;
        }
    }
    let body = strip_nul_bytes(slice_subrange(buffer, body_at, buffer.len()));
    Ok(Request { method: line.method, path: line.path, headers, body })
}

} // verus!
