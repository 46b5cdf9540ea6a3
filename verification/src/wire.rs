//! Requests as they are sent, and the proof that the parser reads them back.

use crate::bytes::{is_space, lemma_find, lemma_skip_spaces, lemma_skip_token, strip_nuls, LF};
use crate::error::ConnectionError;
use crate::header::{header_of, HeaderView};
use crate::request::{
    body_offset, headers_from, line_at, next_line, request_line, request_of, RequestLineView,
    RequestView,
};
use crate::response::crlf;
use vstd::prelude::*;

verus! {

/// Lines as they are sent: each followed by a carriage return and a line
/// feed.
pub open spec fn lines_block(lines: Seq<Seq<u8>>) -> Seq<u8>
    decreases lines.len(),
{
    if lines.len() == 0 {
        Seq::empty()
    } else {
        lines[0] + crlf() + lines_block(lines.drop_first())
    }
}

/// The headers that a list of lines holds, in order. A line that holds no
/// header gives none.
pub open spec fn headers_of(lines: Seq<Seq<u8>>) -> Seq<HeaderView>
    decreases lines.len(),
{
    if lines.len() == 0 {
        Seq::empty()
    } else {
        match header_of(lines[0]) {
            Some(header) => seq![header] + headers_of(lines.drop_first()),
            None => headers_of(lines.drop_first()),
        }
    }
}

/// Whether a byte string can be sent as one line: it holds no line feed.
pub open spec fn is_line(line: Seq<u8>) -> bool {
    forall|i: int| 0 <= i < line.len() ==> line[i] != LF
}

/// Whether a byte string can be sent as a method or a path: it is not empty
/// and holds no whitespace.
pub open spec fn is_token(token: Seq<u8>) -> bool {
    token.len() > 0 && forall|i: int| 0 <= i < token.len() ==> !is_space(token[i])
}

/// Whether byte strings can be sent as header lines: each is a line and none
/// is empty.
pub open spec fn are_header_lines(lines: Seq<Seq<u8>>) -> bool {
    forall|i: int| 0 <= i < lines.len() ==> lines[i].len() > 0 && is_line(#[trigger] lines[i])
}

/// A request as it is sent: the request line made of method, path and
/// version with a space between them, the header lines, a blank line and the
/// body.
pub open spec fn request_bytes(
    method: Seq<u8>,
    path: Seq<u8>,
    version: Seq<u8>,
    header_lines: Seq<Seq<u8>>,
    body: Seq<u8>,
) -> Seq<u8> {
    method + seq![32u8] + path + seq![32u8] + version + crlf() + lines_block(header_lines)
        + crlf() + body
}

/// A request line that begins with a method, a space and a path, and goes on
/// with nothing or with whitespace and anything else, holds that method and
/// that path.
pub proof fn request_line_holds_method_and_path(method: Seq<u8>, path: Seq<u8>, rest: Seq<u8>)
    requires
        is_token(method),
        is_token(path),
        rest.len() > 0 ==> is_space(rest[0]),
    ensures
        request_line(method + seq![32u8] + path + rest) == Ok::<RequestLineView, ConnectionError>(
            RequestLineView { method, path },
        ),
{
    let line = method + seq![32u8] + path + rest;
    let m = method.len() as int;
    let p = path.len() as int;
    lemma_skip_spaces(line, 0, 0);
    lemma_skip_token(line, 0, m);
    lemma_skip_spaces(line, m, m + 1);
    lemma_skip_token(line, m + 1, m + 1 + p);
    assert(line.subrange(0, m) =~= method);
    assert(line.subrange(m + 1, m + 1 + p) =~= path);
}

/// From a line that is followed by a carriage return and a line feed, the
/// line is read back, and the next line begins right after the line feed.
pub proof fn lemma_line_is_read_back(before: Seq<u8>, line: Seq<u8>, after: Seq<u8>)
    requires
        is_line(line),
    ensures
        line_at(before + line + crlf() + after, before.len() as int) == line,
        next_line(before + line + crlf() + after, before.len() as int) == before.len() + line.len()
            + 2,
{
    let s = before + line + crlf() + after;
    let start = before.len() as int;
    let end = start + line.len() + 1;
    lemma_find(s, LF, start, end);
}

/// From header lines that are followed by a blank line and a body, the
/// headers of the lines are read back, and the body begins right after the
/// blank line.
pub proof fn lemma_head_is_read_back(before: Seq<u8>, lines: Seq<Seq<u8>>, body: Seq<u8>)
    requires
        are_header_lines(lines),
    ensures
        headers_from(before + lines_block(lines) + crlf() + body, before.len() as int)
            == headers_of(lines),
        body_offset(before + lines_block(lines) + crlf() + body, before.len() as int)
            == before.len() + lines_block(lines).len() + 2,
    decreases lines.len(),
{
    let s = before + lines_block(lines) + crlf() + body;
    if lines.len() == 0 {
        lemma_line_is_read_back(before, Seq::empty(), body);
    } else {
        let line = lines[0];
        let rest = lines.drop_first();
        let after = lines_block(rest) + crlf() + body;
        let next = before + line + crlf();
        assert(s =~= before + line + crlf() + after);
        assert(s =~= next + lines_block(rest) + crlf() + body);
        lemma_line_is_read_back(before, line, after);
        lemma_head_is_read_back(next, rest, body);
    }
}

/// A request that is sent as a request line, header lines, a blank line and a
/// body, each line followed by a carriage return and a line feed, is read
/// back as it was sent: method and path from the request line, the headers
/// that the header lines hold, in order, and the body without its trailing
/// NUL bytes. The request line is any line; a header line is any line that is
/// not empty.
pub proof fn request_is_read_back(line: Seq<u8>, header_lines: Seq<Seq<u8>>, body: Seq<u8>)
    requires
        is_line(line),
        are_header_lines(header_lines),
    ensures
        request_of(line + crlf() + lines_block(header_lines) + crlf() + body) == match request_line(
            line,
        ) {
            Ok(first) => Ok::<RequestView, ConnectionError>(
                RequestView {
                    method: first.method,
                    path: first.path,
                    headers: headers_of(header_lines),
                    body: strip_nuls(body),
                },
            ),
            Err(e) => Err::<RequestView, ConnectionError>(e),
        },
{
    let none = Seq::<u8>::empty();
    let after = lines_block(header_lines) + crlf() + body;
    let first = line + crlf();
    let s = line + crlf() + lines_block(header_lines) + crlf() + body;
    assert(s =~= none + line + crlf() + after);
    lemma_line_is_read_back(none, line, after);
    lemma_head_is_read_back(first, header_lines, body);
    assert(s.skip((first.len() + lines_block(header_lines).len() + 2) as int) =~= body);
}

/// A request that is sent with a method and a path that are tokens is read
/// back with that method and that path, the headers that its header lines
/// hold, and its body without trailing NUL bytes.
pub proof fn sent_request_is_read_back(
    method: Seq<u8>,
    path: Seq<u8>,
    version: Seq<u8>,
    header_lines: Seq<Seq<u8>>,
    body: Seq<u8>,
)
    requires
        is_token(method),
        is_token(path),
        is_line(version),
        are_header_lines(header_lines),
    ensures
        request_of(request_bytes(method, path, version, header_lines, body)) == Ok::<
            RequestView,
            ConnectionError,
        >(
            RequestView {
                method,
                path,
                headers: headers_of(header_lines),
                body: strip_nuls(body),
            },
        ),
{
    let rest = seq![32u8] + version;
    let line = method + seq![32u8] + path + rest;
    request_line_holds_method_and_path(method, path, rest);
    assert(is_line(line));
    request_is_read_back(line, header_lines, body);
    assert(request_bytes(method, path, version, header_lines, body) =~= line + crlf()
        + lines_block(header_lines) + crlf() + body);
}

} // verus!
