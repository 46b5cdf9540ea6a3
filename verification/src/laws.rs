//! What holds of every request, proved over the models that the contracts of
//! the parser, the router and the handlers are stated in.
//!
//! The file routes are stated against a model of the serving directory: a map
//! from file names to contents, in which a write always succeeds and a read
//! succeeds exactly for the names that are present.

use crate::bytes::{
    ascii, decimal, find, has_prefix, is_space, lemma_find, lemma_find_is_first, trim, COLON, LF,
    NUL, SLASH,
};
use crate::error::ConnectionError;
use crate::header::{header_of, lookup, user_agent_name, HeaderView};
use crate::request::{headers_from, line_at, next_line, request_of, RequestView};
use crate::response::{empty_response, file_response, text_response, ResponseView, Status};
use crate::route::{lemma_segments_join, lemma_segments_of_three, lemma_segments_of_two, segments};
use crate::server::{fetched_response, plan, step_of, stored_response, StepView};
use crate::wire::{are_header_lines, is_line, is_token, request_bytes, sent_request_is_read_back};
use vstd::prelude::*;

verus! {

/// The serving directory: the content stored under each file name.
pub type Directory = Map<Seq<u8>, Seq<u8>>;

/// A directory after a request, and the answer to the request.
pub struct Served {
    pub directory: Directory,
    pub response: Result<ResponseView, ConnectionError>,
}

/// What a read of the file `name` gives in a directory.
pub open spec fn read_file(directory: Directory, name: Seq<u8>) -> Option<Seq<u8>> {
    if directory.dom().contains(name) {
        Some(directory[name])
    } else {
        None
    }
}

/// Handling one request against a directory: the step is carried out, and
/// its outcome decides the response.
pub open spec fn served(directory: Directory, request: RequestView) -> Served {
    match plan(request) {
        Ok(StepView::Respond(response)) => Served { directory, response: Ok(response) },
        Ok(StepView::Fetch { name }) => Served {
            directory,
            response: Ok(fetched_response(read_file(directory, name))),
        },
        Ok(StepView::Store { name, content }) => Served {
            directory: directory.insert(name, content),
            response: stored_response(true),
        },
        Err(e) => Served { directory, response: Err(e) },
    }
}

/// Handling the bytes of one request against a directory.
pub open spec fn handled(directory: Directory, buffer: Seq<u8>) -> Served {
    match request_of(buffer) {
        Ok(request) => served(directory, request),
        Err(e) => Served { directory, response: Err(e) },
    }
}

/// The beginning of the header line that the user-agent route looks for.
pub open spec fn user_agent_prefix() -> Seq<u8> {
    ascii("User-Agent:"@)
}

/// The user agent found by scanning the lines of `s`, from the line that
/// begins at `start` up to the first blank line, for the first one that
/// begins with `User-Agent:`: what follows the colon, trimmed of whitespace.
pub open spec fn scanned_user_agent(s: Seq<u8>, start: int) -> Option<Seq<u8>>
    recommends
        0 <= start,
    decreases s.len() - start,
{
    if start < 0 || start >= s.len() || line_at(s, start).len() == 0 {
        None
    } else if has_prefix(line_at(s, start), user_agent_prefix()) {
        Some(trim(line_at(s, start).skip(user_agent_prefix().len() as int)))
    } else {
        proof {
            lemma_find_is_first(s, LF, start);
        }
        scanned_user_agent(s, next_line(s, start))
    }
}

/// A line holds a header named `User-Agent` exactly when it begins with
/// `User-Agent:`, and the header's value is then what follows the colon,
/// trimmed of whitespace.
pub proof fn lemma_user_agent_line(line: Seq<u8>)
    ensures
        has_prefix(line, user_agent_prefix()) ==> header_of(line) == Some(
            HeaderView {
                name: user_agent_name(),
                value: trim(line.skip(user_agent_prefix().len() as int)),
            },
        ),
        !has_prefix(line, user_agent_prefix()) ==> (header_of(line) matches Some(header)
            ==> header.name != user_agent_name()),
{
    reveal_strlit("User-Agent:");
    reveal_strlit("User-Agent");
    let prefix = user_agent_prefix();
    let name = user_agent_name();
    assert(prefix.subrange(0, 10) =~= name);
    if has_prefix(line, prefix) {
        assert(forall|i: int| 0 <= i < 11 ==> line[i] == line.subrange(0, 11)[i]);
        lemma_find(line, COLON, 0, 10);
        assert(line.subrange(0, 10) =~= name);
    } else {
        lemma_find_is_first(line, COLON, 0);
        let colon = find(line, COLON, 0);
        if colon < line.len() && line.subrange(0, colon) == name {
            assert(line.subrange(0, 11) =~= prefix);
        }
    }
}

/// Looking the `User-Agent` header up among the parsed headers gives what
/// scanning the header lines for the first that begins with `User-Agent:`
/// gives.
pub proof fn lemma_lookup_is_scan(s: Seq<u8>, start: int)
    ensures
        lookup(headers_from(s, start), user_agent_name()) == scanned_user_agent(s, start),
    decreases s.len() - start,
{
    if start < 0 || start >= s.len() || line_at(s, start).len() == 0 {
    } else {
        let line = line_at(s, start);
        let rest = headers_from(s, next_line(s, start));
        lemma_find_is_first(s, LF, start);
        lemma_user_agent_line(line);
        lemma_lookup_is_scan(s, next_line(s, start));
        match header_of(line) {
            Some(header) => {
                assert((seq![header] + rest).drop_first() =~= rest);
            },
            None => {},
        }
    }
}

/// Every request for `/echo/` followed by `rest`, whatever its method, is
/// answered with status 200 and `rest` itself as the body, byte for byte,
/// under a `Content-Length` that is the number of bytes of `rest` in decimal.
/// An empty `rest` gives an empty body.
pub proof fn echo_reflects_the_path(request: RequestView, rest: Seq<u8>)
    requires
        request.path == ascii("/echo/"@) + rest,
    ensures
        plan(request) == Ok::<StepView, ConnectionError>(StepView::Respond(text_response(rest))),
        text_response(rest).status == Status::Success,
        text_response(rest).body == rest,
        text_response(rest).headers.len() == 2,
        text_response(rest).headers[1] == (HeaderView {
            name: ascii("Content-Length"@),
            value: decimal(rest.len()),
        }),
{
    reveal_strlit("/echo/");
    reveal_strlit("echo");
    reveal_strlit("files");
    let keyword = ascii("echo"@);
    assert(request.path =~= seq![SLASH] + keyword + seq![SLASH] + rest);
    lemma_segments_of_three(keyword, rest);
}

/// Every request that is sent for `/echo/` followed by `rest`, where `rest`
/// holds no whitespace, is answered with status 200 and `rest` as the body.
pub proof fn echo_over_the_wire(
    method: Seq<u8>,
    rest: Seq<u8>,
    version: Seq<u8>,
    header_lines: Seq<Seq<u8>>,
    body: Seq<u8>,
)
    requires
        is_token(method),
        forall|i: int| 0 <= i < rest.len() ==> !is_space(rest[i]),
        is_line(version),
        are_header_lines(header_lines),
    ensures
        step_of(request_bytes(method, ascii("/echo/"@) + rest, version, header_lines, body))
            == Ok::<StepView, ConnectionError>(StepView::Respond(text_response(rest))),
{
    reveal_strlit("/echo/");
    let path = ascii("/echo/"@) + rest;
    sent_request_is_read_back(method, path, version, header_lines, body);
    let request = request_of(request_bytes(method, path, version, header_lines, body))->Ok_0;
    echo_reflects_the_path(request, rest);
}

/// Every request for `/user-agent` is answered from the first header line
/// that begins with `User-Agent:`: with status 200 and, as the body, what
/// follows the colon on that line, trimmed of surrounding whitespace. Where
/// no header line begins so, the connection ends without a response.
pub proof fn user_agent_is_returned_trimmed(buffer: Seq<u8>)
    requires
        request_of(buffer) matches Ok(request) && request.path == ascii("/user-agent"@),
    ensures
        step_of(buffer) == match scanned_user_agent(buffer, next_line(buffer, 0)) {
            Some(value) => Ok::<StepView, ConnectionError>(
                StepView::Respond(text_response(value)),
            ),
            None => Err::<StepView, ConnectionError>(ConnectionError::MissingUserAgent),
        },
{
    reveal_strlit("/user-agent");
    reveal_strlit("user-agent");
    let request = request_of(buffer)->Ok_0;
    let keyword = ascii("user-agent"@);
    assert(request.path =~= seq![SLASH] + keyword);
    lemma_segments_of_two(keyword);
    lemma_lookup_is_scan(buffer, next_line(buffer, 0));
}

/// Every request for `/`, whatever its method, is answered with status 200,
/// no headers and an empty body.
pub proof fn root_is_an_empty_success(request: RequestView)
    requires
        request.path == ascii("/"@),
    ensures
        plan(request) == Ok::<StepView, ConnectionError>(
            StepView::Respond(
                ResponseView {
                    status: Status::Success,
                    headers: Seq::empty(),
                    body: Seq::empty(),
                },
            ),
        ),
{
    reveal_strlit("/");
    reveal_strlit("user-agent");
    let keyword = Seq::<u8>::empty();
    assert(request.path =~= seq![SLASH] + keyword);
    lemma_segments_of_two(keyword);
}

/// Every request whose method and path match none of the routes is answered
/// with status 404, no headers and an empty body. The routes are: `/`,
/// `/user-agent` and `/echo/...` under any method, and `/files/...` under
/// `GET` or `POST`.
pub proof fn unmatched_is_not_found(request: RequestView)
    requires
        request.path != ascii("/"@),
        request.path != ascii("/user-agent"@),
        !has_prefix(request.path, ascii("/echo/"@)),
        !(has_prefix(request.path, ascii("/files/"@)) && (request.method == ascii("GET"@)
            || request.method == ascii("POST"@))),
    ensures
        plan(request) == Ok::<StepView, ConnectionError>(
            StepView::Respond(
                ResponseView {
                    status: Status::NotFound,
                    headers: Seq::empty(),
                    body: Seq::empty(),
                },
            ),
        ),
{
    reveal_strlit("/");
    reveal_strlit("/user-agent");
    reveal_strlit("user-agent");
    reveal_strlit("/echo/");
    reveal_strlit("echo");
    reveal_strlit("/files/");
    reveal_strlit("files");
    let path = request.path;
    let parts = segments(path);
    lemma_segments_join(path);
    if parts.len() == 2 && parts[0].len() == 0 {
        if parts[1].len() == 0 {
            assert(path =~= ascii("/"@));
        }
        if parts[1] == ascii("user-agent"@) {
            assert(path =~= ascii("/user-agent"@));
        }
    }
    if parts.len() == 3 && parts[0].len() == 0 {
        if parts[1] == ascii("echo"@) {
            assert(path.subrange(0, 6) =~= ascii("/echo/"@));
        }
        if parts[1] == ascii("files"@) {
            assert(path.subrange(0, 7) =~= ascii("/files/"@));
        }
    }
}

/// After `POST /files/` + `name` with body `content`, which is answered with
/// an empty 201, `GET /files/` + `name` is answered with status 200 and
/// exactly `content` as the body, under a `Content-Length` that is the number
/// of bytes of `content` in decimal.
pub proof fn upload_then_download(
    directory: Directory,
    upload: RequestView,
    download: RequestView,
    name: Seq<u8>,
    content: Seq<u8>,
)
    requires
        upload.method == ascii("POST"@),
        upload.path == ascii("/files/"@) + name,
        upload.body == content,
        download.method == ascii("GET"@),
        download.path == ascii("/files/"@) + name,
    ensures
        served(directory, upload).response == Ok::<ResponseView, ConnectionError>(
            empty_response(Status::Created),
        ),
        served(served(directory, upload).directory, download).response == Ok::<
            ResponseView,
            ConnectionError,
        >(file_response(content)),
        served(served(directory, upload).directory, download).directory == served(
            directory,
            upload,
        ).directory,
        file_response(content).status == Status::Success,
        file_response(content).body == content,
        file_response(content).headers.len() == 2,
        file_response(content).headers[1] == (HeaderView {
            name: ascii("Content-Length"@),
            value: decimal(content.len()),
        }),
{
    reveal_strlit("/files/");
    reveal_strlit("files");
    reveal_strlit("GET");
    reveal_strlit("POST");
    let keyword = ascii("files"@);
    assert(upload.path =~= seq![SLASH] + keyword + seq![SLASH] + name);
    lemma_segments_of_three(keyword, name);
    assert(upload.method != ascii("GET"@)) by {
        assert(upload.method.len() == 4);
    }
}

/// After a `POST` that is sent for `/files/` + `name` with the body
/// `content`, a `GET` that is sent for `/files/` + `name` is answered with
/// status 200 and exactly `content` as the body. This holds of every name
/// without whitespace and of every content that does not end in a NUL byte:
/// trailing NUL bytes are taken for the padding of the read buffer and are
/// not stored.
pub proof fn upload_then_download_over_the_wire(
    directory: Directory,
    name: Seq<u8>,
    content: Seq<u8>,
    upload_version: Seq<u8>,
    upload_lines: Seq<Seq<u8>>,
    download_version: Seq<u8>,
    download_lines: Seq<Seq<u8>>,
    download_body: Seq<u8>,
)
    requires
        forall|i: int| 0 <= i < name.len() ==> !is_space(name[i]),
        content.len() == 0 || content.last() != NUL,
        is_line(upload_version),
        are_header_lines(upload_lines),
        is_line(download_version),
        are_header_lines(download_lines),
    ensures
        ({
            let path = ascii("/files/"@) + name;
            let upload = request_bytes(ascii("POST"@), path, upload_version, upload_lines, content);
            let download = request_bytes(
                ascii("GET"@),
                path,
                download_version,
                download_lines,
                download_body,
            );
            let stored = handled(directory, upload);
            &&& stored.response == Ok::<ResponseView, ConnectionError>(
                empty_response(Status::Created),
            )
            &&& handled(stored.directory, download).response == Ok::<
                ResponseView,
                ConnectionError,
            >(file_response(content))
        }),
{
    reveal_strlit("/files/");
    reveal_strlit("GET");
    reveal_strlit("POST");
    let path = ascii("/files/"@) + name;
    sent_request_is_read_back(ascii("POST"@), path, upload_version, upload_lines, content);
    sent_request_is_read_back(ascii("GET"@), path, download_version, download_lines, download_body);
    let upload = request_of(
        request_bytes(ascii("POST"@), path, upload_version, upload_lines, content),
    )->Ok_0;
    let download = request_of(
        request_bytes(ascii("GET"@), path, download_version, download_lines, download_body),
    )->Ok_0;
    upload_then_download(directory, upload, download, name, content);
}

/// `GET /files/` + `name` for a name that the directory does not hold is
/// answered with status 404, no headers and an empty body, and leaves the
/// directory as it was.
pub proof fn missing_file_is_not_found(directory: Directory, request: RequestView, name: Seq<u8>)
    requires
        request.method == ascii("GET"@),
        request.path == ascii("/files/"@) + name,
        !directory.dom().contains(name),
    ensures
        served(directory, request).response == Ok::<ResponseView, ConnectionError>(
            ResponseView {
                status: Status::NotFound,
                headers: Seq::empty(),
                body: Seq::empty(),
            },
        ),
        served(directory, request).directory == directory,
{
    reveal_strlit("/files/");
    reveal_strlit("files");
    reveal_strlit("GET");
    reveal_strlit("POST");
    let keyword = ascii("files"@);
    assert(request.path =~= seq![SLASH] + keyword + seq![SLASH] + name);
    lemma_segments_of_three(keyword, name);
}

} // verus!
