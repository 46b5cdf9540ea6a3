use http_server::config::BUFFER_SIZE;
use http_server::error::ConnectionError;
use http_server::response::{Response, Status};
use http_server::server::{build_response, get_file_response, post_file_response, Step};

/// The bytes as a connection handler reads them: in a zeroed buffer of the
/// configured size.
fn padded(request: &[u8]) -> Vec<u8> {
    let mut buffer = vec![0u8; BUFFER_SIZE];
    buffer[..request.len()].copy_from_slice(request);
    buffer
}

/// A directory held in memory, for the file routes.
struct Directory {
    files: Vec<(Vec<u8>, Vec<u8>)>,
}

impl Directory {
    fn new() -> Directory {
        Directory { files: Vec::new() }
    }

    fn read(&self, name: &[u8]) -> Option<Vec<u8>> {
        self.files.iter().find(|(n, _)| n.as_slice() == name).map(|(_, c)| c.clone())
    }

    fn write(&mut self, name: Vec<u8>, content: Vec<u8>) -> bool {
        self.files.retain(|(n, _)| *n != name);
        self.files.push((name, content));
        true
    }
}

/// Handles one request against the directory, as a connection handler does.
fn serve(directory: &mut Directory, request: &[u8]) -> Result<Response, ConnectionError> {
    match build_response(request)? {
        Step::Respond(response) => Ok(response),
        Step::Fetch { name } => Ok(get_file_response(directory.read(&name))),
        Step::Store { name, content } => post_file_response(directory.write(name, content)),
    }
}

fn wire(directory: &mut Directory, request: &[u8]) -> Vec<u8> {
    serve(directory, request).expect("a response").to_bytes()
}

#[test]
fn echo_on_the_wire() {
    let mut directory = Directory::new();
    let expected: &[u8] =
        b"HTTP/1.1 200 OK\r\nContent-Type: text/plain\r\nContent-Length: 3\r\n\r\nabc";
    assert_eq!(wire(&mut directory, b"GET /echo/abc HTTP/1.1\r\n\r\n"), expected);
    assert_eq!(wire(&mut directory, &padded(b"GET /echo/abc HTTP/1.1\r\n\r\n")), expected);
}

#[test]
fn user_agent_on_the_wire() {
    let mut directory = Directory::new();
    let request = b"GET /user-agent HTTP/1.1\r\nUser-Agent: test-client/1\r\n\r\n";
    let response = serve(&mut directory, request).expect("a response");
    assert_eq!(response.status, Status::Success);
    assert_eq!(response.body, b"test-client/1");
    assert_eq!(response.headers.len(), 2);
    assert_eq!(response.headers[1].name, b"Content-Length");
    assert_eq!(response.headers[1].value, b"13");
    let expected: &[u8] =
        b"HTTP/1.1 200 OK\r\nContent-Type: text/plain\r\nContent-Length: 13\r\n\r\ntest-client/1";
    assert_eq!(response.to_bytes(), expected);
    assert_eq!(wire(&mut directory, &padded(request)), expected);
}

#[test]
fn upload_then_download_on_the_wire() {
    let mut directory = Directory::new();
    let upload = b"POST /files/hello HTTP/1.1\r\nContent-Length: 5\r\n\r\nworld";
    assert_eq!(wire(&mut directory, upload), b"HTTP/1.1 201 Created\r\n\r\n");
    assert_eq!(directory.read(b"hello"), Some(b"world".to_vec()));
    let download = serve(&mut directory, b"GET /files/hello HTTP/1.1\r\n\r\n").expect("a response");
    assert_eq!(download.status, Status::Success);
    assert_eq!(download.body, b"world");
    let expected: &[u8] = b"HTTP/1.1 200 OK\r\nContent-Type: application/octet-stream\r\nContent-Length: 5\r\n\r\nworld";
    assert_eq!(download.to_bytes(), expected);
}

#[test]
fn upload_from_a_padded_buffer() {
    let mut directory = Directory::new();
    let upload = padded(b"POST /files/hello HTTP/1.1\r\nContent-Length: 5\r\n\r\nworld");
    assert_eq!(wire(&mut directory, &upload), b"HTTP/1.1 201 Created\r\n\r\n");
    assert_eq!(directory.read(b"hello"), Some(b"world".to_vec()));
}

#[test]
fn unknown_path_on_the_wire() {
    let mut directory = Directory::new();
    assert_eq!(
        wire(&mut directory, b"GET /nope HTTP/1.1\r\n\r\n"),
        b"HTTP/1.1 404 Not Found\r\n\r\n"
    );
}

#[test]
fn interleaved_connections_do_not_mix() {
    let mut directory = Directory::new();
    let first = build_response(b"GET /echo/a HTTP/1.1\r\n\r\n");
    let second = build_response(b"GET /echo/b HTTP/1.1\r\n\r\n");
    let second = match second {
        Ok(Step::Respond(response)) => response.to_bytes(),
        other => panic!("unexpected {:?}", other),
    };
    let first = match first {
        Ok(Step::Respond(response)) => response.to_bytes(),
        other => panic!("unexpected {:?}", other),
    };
    let expected_a: &[u8] =
        b"HTTP/1.1 200 OK\r\nContent-Type: text/plain\r\nContent-Length: 1\r\n\r\na";
    let expected_b: &[u8] =
        b"HTTP/1.1 200 OK\r\nContent-Type: text/plain\r\nContent-Length: 1\r\n\r\nb";
    assert_eq!(first, expected_a);
    assert_eq!(second, expected_b);
    assert_eq!(wire(&mut directory, b"GET /echo/a HTTP/1.1\r\n\r\n"), expected_a);
}

#[test]
fn echo_reflects_any_rest() {
    let mut directory = Directory::new();
    let response = serve(&mut directory, b"GET /echo/ HTTP/1.1\r\n\r\n").expect("a response");
    assert_eq!(response.status.code(), 200);
    assert_eq!(response.body, b"");
    assert_eq!(response.headers[1].value, b"0");
    assert_eq!(
        response.to_bytes(),
        b"HTTP/1.1 200 OK\r\nContent-Type: text/plain\r\nContent-Length: 0\r\n\r\n"
    );
    let response = serve(&mut directory, b"PUT /echo/a/b%20c/ HTTP/1.1\r\n\r\n").expect("a response");
    assert_eq!(response.body, b"a/b%20c/");
    assert_eq!(response.headers[0].name, b"Content-Type");
    assert_eq!(response.headers[0].value, b"text/plain");
    assert_eq!(response.headers[1].value, b"8");
    let long = vec![b'x'; 123];
    let mut request = b"GET /echo/".to_vec();
    request.extend_from_slice(&long);
    request.extend_from_slice(b" HTTP/1.1\r\n\r\n");
    let response = serve(&mut directory, &request).expect("a response");
    assert_eq!(response.body, long);
    assert_eq!(response.headers[1].value, b"123");
}

#[test]
fn user_agent_is_trimmed() {
    let mut directory = Directory::new();
    let request = b"GET /user-agent HTTP/1.1\r\nHost: localhost\r\nUser-Agent: \t  curl/8.0 (x y) \t \r\nAccept: */*\r\n\r\n";
    let response = serve(&mut directory, request).expect("a response");
    assert_eq!(response.body, b"curl/8.0 (x y)");
    assert_eq!(response.headers[1].value, b"14");
    let request = b"GET /user-agent HTTP/1.1\r\nUser-Agent:a\r\nUser-Agent: b\r\n\r\n";
    assert_eq!(serve(&mut directory, request).expect("a response").body, b"a");
    let request = b"GET /user-agent HTTP/1.1\r\nUser-Agent:\r\n\r\n";
    assert_eq!(serve(&mut directory, request).expect("a response").body, b"");
}

#[test]
fn user_agent_must_be_sent() {
    let mut directory = Directory::new();
    assert_eq!(
        serve(&mut directory, b"GET /user-agent HTTP/1.1\r\n\r\n"),
        Err(ConnectionError::MissingUserAgent)
    );
    assert_eq!(
        serve(&mut directory, b"GET /user-agent HTTP/1.1\r\nuser-agent: x\r\n\r\n"),
        Err(ConnectionError::MissingUserAgent)
    );
    assert_eq!(
        serve(&mut directory, b"GET /user-agent HTTP/1.1\r\nHost: h\r\n\r\nUser-Agent: x\r\n"),
        Err(ConnectionError::MissingUserAgent)
    );
    assert_eq!(
        serve(&mut directory, &padded(b"GET /user-agent HTTP/1.1\r\n\r\n")),
        Err(ConnectionError::MissingUserAgent)
    );
}

#[test]
fn root_is_an_empty_success() {
    let mut directory = Directory::new();
    for method in [&b"GET"[..], b"POST", b"DELETE", b"get"] {
        let mut request = method.to_vec();
        request.extend_from_slice(b" / HTTP/1.1\r\n\r\n");
        let response = serve(&mut directory, &request).expect("a response");
        assert_eq!(response.status, Status::Success);
        assert_eq!(response.status.code(), 200);
        assert!(response.headers.is_empty());
        assert!(response.body.is_empty());
        assert_eq!(response.to_bytes(), b"HTTP/1.1 200 OK\r\n\r\n");
    }
}

#[test]
fn unmatched_requests_are_not_found() {
    let mut directory = Directory::new();
    directory.write(b"x".to_vec(), b"content".to_vec());
    let requests: [&[u8]; 12] = [
        b"DELETE /files/x HTTP/1.1\r\n\r\n",
        b"PUT /files/x HTTP/1.1\r\n\r\n",
        b"get /files/x HTTP/1.1\r\n\r\n",
        b"GET /files HTTP/1.1\r\n\r\n",
        b"GET /echo HTTP/1.1\r\n\r\n",
        b"GET /user-agent/ HTTP/1.1\r\nUser-Agent: x\r\n\r\n",
        b"GET /user-agent/x HTTP/1.1\r\nUser-Agent: x\r\n\r\n",
        b"GET /Echo/abc HTTP/1.1\r\n\r\n",
        b"GET echo/abc HTTP/1.1\r\n\r\n",
        b"GET // HTTP/1.1\r\n\r\n",
        b"GET /a/b/c/d HTTP/1.1\r\n\r\n",
        b"GET * HTTP/1.1\r\n\r\n",
    ];
    for request in requests {
        let response = serve(&mut directory, request).expect("a response");
        assert_eq!(response.status, Status::NotFound);
        assert_eq!(response.status.code(), 404);
        assert!(response.headers.is_empty());
        assert!(response.body.is_empty());
        assert_eq!(response.to_bytes(), b"HTTP/1.1 404 Not Found\r\n\r\n");
    }
}

#[test]
fn round_trip_keeps_every_byte() {
    let mut directory = Directory::new();
    let content: Vec<u8> = vec![0, 1, 2, b'\r', b'\n', b'\r', b'\n', 0, 255, b' ', 7];
    let mut upload = b"POST /files/blob.bin HTTP/1.1\r\nHost: h\r\nContent-Type: application/octet-stream\r\nContent-Length: 11\r\nX: y\r\n\r\n".to_vec();
    upload.extend_from_slice(&content);
    let created = serve(&mut directory, &upload).expect("a response");
    assert_eq!(created.status, Status::Created);
    assert_eq!(created.status.code(), 201);
    assert!(created.headers.is_empty());
    assert!(created.body.is_empty());
    let download = serve(&mut directory, b"GET /files/blob.bin HTTP/1.1\r\n\r\n").expect("a response");
    assert_eq!(download.status, Status::Success);
    assert_eq!(download.body, content);
    assert_eq!(download.headers[0].name, b"Content-Type");
    assert_eq!(download.headers[0].value, b"application/octet-stream");
    assert_eq!(download.headers[1].name, b"Content-Length");
    assert_eq!(download.headers[1].value, b"11");
}

#[test]
fn second_upload_replaces_the_first() {
    let mut directory = Directory::new();
    wire(&mut directory, b"POST /files/f HTTP/1.1\r\n\r\nfirst content");
    wire(&mut directory, b"POST /files/f HTTP/1.1\r\n\r\nsecond");
    let download = serve(&mut directory, b"GET /files/f HTTP/1.1\r\n\r\n").expect("a response");
    assert_eq!(download.body, b"second");
    assert_eq!(download.headers[1].value, b"6");
}

#[test]
fn missing_file_is_not_found() {
    let mut directory = Directory::new();
    directory.write(b"present".to_vec(), b"x".to_vec());
    let response = serve(&mut directory, b"GET /files/missing HTTP/1.1\r\n\r\n").expect("a response");
    assert_eq!(response.status, Status::NotFound);
    assert!(response.headers.is_empty());
    assert!(response.body.is_empty());
    assert_eq!(response.to_bytes(), b"HTTP/1.1 404 Not Found\r\n\r\n");
    assert_eq!(get_file_response(None).to_bytes(), b"HTTP/1.1 404 Not Found\r\n\r\n");
}

#[test]
fn failed_write_ends_the_connection() {
    assert_eq!(post_file_response(false), Err(ConnectionError::WriteFailed));
    assert_eq!(post_file_response(true), Ok(Response::empty(Status::Created)));
}

#[test]
fn malformed_request_line_ends_the_connection() {
    let mut directory = Directory::new();
    let requests: [&[u8]; 6] = [b"", b"GET", b"GET\r\n\r\n", b"\r\nGET / HTTP/1.1\r\n", b"   \t \r\n", b"GET \r\n/ HTTP/1.1\r\n"];
    for request in requests {
        assert_eq!(serve(&mut directory, request), Err(ConnectionError::MalformedRequestLine));
    }
    assert_eq!(
        serve(&mut directory, &padded(b"")),
        Err(ConnectionError::MalformedRequestLine)
    );
}

#[test]
fn file_steps_name_the_file() {
    assert_eq!(
        build_response(b"GET /files/a/b.txt HTTP/1.1\r\n\r\n"),
        Ok(Step::Fetch { name: b"a/b.txt".to_vec() })
    );
    assert_eq!(
        build_response(b"GET /files/ HTTP/1.1\r\n\r\n"),
        Ok(Step::Fetch { name: Vec::new() })
    );
    assert_eq!(
        build_response(b"POST /files/n HTTP/1.1\r\nA: b\r\n\r\nbody\0\0\0"),
        Ok(Step::Store { name: b"n".to_vec(), content: b"body".to_vec() })
    );
    assert_eq!(
        build_response(b"POST /files/n HTTP/1.1\r\n"),
        Ok(Step::Store { name: b"n".to_vec(), content: Vec::new() })
    );
}

#[test]
fn error_messages() {
    assert_eq!(ConnectionError::MalformedRequestLine.message(), "Failed to parse request line");
    assert_eq!(ConnectionError::MissingUserAgent.message(), "Failed to get user agent line");
    assert_eq!(ConnectionError::WriteFailed.message(), "Failed to write file");
}
