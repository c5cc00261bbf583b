use http_server::header::{Header, HeaderError};
use http_server::request::{HttpVersion, Method, Request, RequestError, RequestTarget, StartLine};
use http_server::response::{decimal_string, Response, StatusLine, StatusText};
use http_server::server::{handle_request, route};

fn respond(raw: &str) -> Option<String> {
    handle_request(raw.to_string())
}

fn parse(raw: &str) -> Request {
    match Request::extract_request_fields(raw.to_string()) {
        Ok((start_line, headers, body)) => Request::new(start_line, headers, body),
        Err(e) => panic!("request did not parse: {:?}", e),
    }
}

#[test]
fn empty_response_serializes_to_status_line_and_blank_line() {
    let (status_line, headers, body) = match Response::try_build_response_fields(200, None, None) {
        Ok(fields) => fields,
        Err(_) => panic!("fields were refused"),
    };
    let response = Response::build_response(status_line, headers, body);
    assert_eq!(response.build_response_as_string(), "HTTP/1.1 200 OK\r\n\r\n");
}

#[test]
fn echo_route_answers_with_segment() {
    let request = parse("GET /echo/abc HTTP/1.1\r\n\r\n");
    assert_eq!(request.start_line.request_target.path, "echo");
    assert_eq!(request.start_line.request_target.trailing_segment.as_deref(), Some("abc"));
    assert_eq!(
        respond("GET /echo/abc HTTP/1.1\r\n\r\n").as_deref(),
        Some("HTTP/1.1 200 OK\r\nContent-Type: text/plain\r\nContent-Length: 3\r\n\r\nabc")
    );
}

#[test]
fn root_route_answers_ok() {
    assert_eq!(respond("GET / HTTP/1.1\r\n\r\n").as_deref(), Some("HTTP/1.1 200 OK\r\n\r\n"));
}

#[test]
fn unknown_route_answers_not_found() {
    assert_eq!(
        respond("GET /unknown HTTP/1.1\r\n\r\n").as_deref(),
        Some("HTTP/1.1 404 Not Found\r\n\r\n")
    );
}

#[test]
fn malformed_request_gets_no_bytes() {
    assert_eq!(respond("BOGUS\r\n\r\n"), None);
}

#[test]
fn echo_without_segment_gets_no_bytes() {
    assert_eq!(respond("GET /echo HTTP/1.1\r\n\r\n"), None);
}

#[test]
fn echo_length_counts_bytes() {
    assert_eq!(
        respond("GET /echo/\u{e9}t\u{e9} HTTP/1.1\r\n\r\n").as_deref(),
        Some("HTTP/1.1 200 OK\r\nContent-Type: text/plain\r\nContent-Length: 5\r\n\r\n\u{e9}t\u{e9}")
    );
}

#[test]
fn every_method_and_version_pair_parses() {
    let methods = [
        ("GET", Method::GET),
        ("POST", Method::POST),
        ("PUT", Method::PUT),
        ("PATCH", Method::PATCH),
        ("DELETE", Method::DELETE),
    ];
    let versions = [
        ("HTTP/0.9", HttpVersion::Http09),
        ("HTTP/1.0", HttpVersion::Http10),
        ("HTTP/1.1", HttpVersion::Http11),
        ("HTTP/2.0", HttpVersion::Http20),
        ("HTTP/3.0", HttpVersion::Http30),
    ];
    for (mt, m) in methods.iter() {
        for (vt, v) in versions.iter() {
            let line = format!("{} /items/42 {}", mt, vt);
            match StartLine::build(Some(&line)) {
                Ok(sl) => {
                    assert_eq!(sl.method, *m);
                    assert_eq!(sl.http_version, *v);
                    assert_eq!(sl.request_target.full_path, "/items/42");
                    assert_eq!(sl.request_target.path, "items");
                    assert_eq!(sl.request_target.trailing_segment.as_deref(), Some("42"));
                }
                Err(e) => panic!("{} did not parse: {:?}", line, e),
            }
        }
    }
}

#[test]
fn start_line_tokens_may_be_spread_by_whitespace() {
    let line = String::from("  GET \t /  HTTP/1.1 ");
    match StartLine::build(Some(&line)) {
        Ok(sl) => {
            assert_eq!(sl.method, Method::GET);
            assert_eq!(sl.request_target.path, "/");
        }
        Err(e) => panic!("did not parse: {:?}", e),
    }
}

#[test]
fn wrong_token_count_is_invalid_start_line() {
    for raw in ["BOGUS\r\n\r\n", "GET /\r\n\r\n", "GET / HTTP/1.1 extra\r\n\r\n", "\r\n\r\n", ""] {
        assert!(matches!(
            Request::extract_request_fields(raw.to_string()),
            Err(RequestError::InvalidStartLine)
        ));
    }
}

#[test]
fn unknown_method_or_version_is_invalid_start_line() {
    for raw in ["FETCH / HTTP/1.1\r\n\r\n", "GET / HTTP/1.2\r\n\r\n", "get / HTTP/1.1\r\n\r\n"] {
        assert!(matches!(
            Request::extract_request_fields(raw.to_string()),
            Err(RequestError::InvalidStartLine)
        ));
    }
}

#[test]
fn missing_header_block_is_invalid_header() {
    assert!(matches!(
        Request::extract_request_fields(String::from("GET / HTTP/1.1")),
        Err(RequestError::InvalidHeader)
    ));
    assert_eq!(respond("GET / HTTP/1.1"), None);
}

#[test]
fn missing_tokens_are_refused() {
    assert_eq!(Method::identify_method(None), Err(RequestError::InvalidStartLine));
    assert_eq!(HttpVersion::identify_http_version(None), Err(RequestError::InvalidStartLine));
    assert!(matches!(RequestTarget::build(None), Err(RequestError::InvalidStartLine)));
    assert!(matches!(StartLine::build(None), Err(RequestError::InvalidStartLine)));
    assert_eq!(
        Method::identify_method(Some(&String::from("PATCH"))),
        Ok(Method::PATCH)
    );
    assert_eq!(
        HttpVersion::identify_http_version(Some(&String::from("HTTP/3.0"))),
        Ok(HttpVersion::Http30)
    );
}

#[test]
fn malformed_header_lines_are_dropped() {
    let request = parse("GET / HTTP/1.1\r\nHost: example\r\ngarbage\r\nAccept:none\r\n: empty\r\nUser-Agent: t\r\n\r\n");
    let names: Vec<&str> = request.headers.iter().map(|h| h.name().as_str()).collect();
    let values: Vec<&str> = request.headers.iter().map(|h| h.value().as_str()).collect();
    assert_eq!(names, vec!["Host", "User-Agent"]);
    assert_eq!(values, vec!["example", "t"]);
}

#[test]
fn header_splits_at_first_separator() {
    match Header::try_build_header("X-Note: a: b") {
        Some(h) => {
            assert_eq!(h.name(), "X-Note");
            assert_eq!(h.value(), "a: b");
            assert_eq!(h.header_as_string(), "X-Note: a: b\r\n");
        }
        None => panic!("header was dropped"),
    }
    assert!(Header::try_build_header("no separator").is_none());
    assert!(Header::try_build_header(": no name").is_none());
}

#[test]
fn header_block_absent_is_an_error() {
    assert!(matches!(
        Header::try_build_headers_from_slice(None),
        Err(HeaderError::InvalidHeader)
    ));
    let lines = vec![String::from("A: 1"), String::from("junk"), String::from("B: 2")];
    match Header::try_build_headers_from_slice(Some(&lines[..])) {
        Ok(hs) => assert_eq!(
            Header::build_headers_to_string(Some(&hs)),
            "A: 1\r\nB: 2\r\n"
        ),
        Err(_) => panic!("block was refused"),
    }
}

#[test]
fn headers_serialize_in_order() {
    let hs = Header::try_build_headers_from_hashmap(vec![
        (String::from("Content-Type"), String::from("text/plain")),
        (String::from("Content-Length"), String::from("3")),
    ]);
    assert_eq!(
        Header::build_headers_to_string(Some(&hs)),
        "Content-Type: text/plain\r\nContent-Length: 3\r\n"
    );
    assert_eq!(Header::build_headers_to_string(Some(&Vec::new())), "");
    assert_eq!(Header::build_headers_to_string(None), "");
}

#[test]
fn body_is_the_last_line() {
    let request = parse("POST /submit HTTP/1.1\r\nHost: a\r\n\r\nhello");
    assert_eq!(request.start_line.method, Method::POST);
    assert_eq!(request.headers.len(), 1);
    assert_eq!(request.body.as_deref(), Some("hello"));
    let empty = parse("GET / HTTP/1.1\r\n\r\n");
    assert_eq!(empty.body, None);
    assert_eq!(empty.headers.len(), 0);
}

#[test]
fn target_keeps_at_most_three_pieces() {
    let cases: [(&str, &str, Option<&str>); 6] = [
        ("/", "/", None),
        ("//", "/", None),
        ("/echo", "echo", None),
        ("/echo/abc/def", "echo", Some("abc/def")),
        ("echo/a/b", "echo", Some("b")),
        ("//x", "x", None),
    ];
    for (raw, path, trailing) in cases.iter() {
        match RequestTarget::build(Some(&raw.to_string())) {
            Ok(t) => {
                assert_eq!(t.full_path, *raw);
                assert_eq!(t.path, *path);
                assert_eq!(t.trailing_segment.as_deref(), *trailing);
            }
            Err(_) => panic!("{} was refused", raw),
        }
    }
}

#[test]
fn status_lines_for_each_code() {
    assert_eq!(StatusLine::status_line_as_string(&StatusLine::build(200)), "HTTP/1.1 200 OK");
    assert_eq!(StatusLine::status_line_as_string(&StatusLine::build(404)), "HTTP/1.1 404 Not Found");
    assert_eq!(
        StatusLine::status_line_as_string(&StatusLine::build(500)),
        "HTTP/1.1 500 Internal Server Error"
    );
    assert_eq!(StatusLine::status_line_as_string(&StatusLine::build(400)), "HTTP/1.1 400 Bad Request");
    assert_eq!(StatusLine::status_line_as_string(&StatusLine::build(299)), "HTTP/1.1 299 ");
    assert_eq!(StatusLine::build(7).status_code(), 7);
}

#[test]
fn status_text_of_codes() {
    assert_eq!(StatusText::identify_status_line(200), StatusText::Okay);
    assert_eq!(StatusText::identify_status_line(404), StatusText::NotFound);
    assert_eq!(StatusText::identify_status_line(500), StatusText::InternalServerError);
    assert_eq!(StatusText::identify_status_line(400), StatusText::BadRequest);
    assert_eq!(StatusText::identify_status_line(201), StatusText::Invalid);
    assert_eq!(StatusText::Invalid.status_to_string(), "");
    assert_eq!(StatusText::NotFound.status_to_string(), "Not Found");
}

#[test]
fn decimal_rendering() {
    assert_eq!(decimal_string(0), "0");
    assert_eq!(decimal_string(7), "7");
    assert_eq!(decimal_string(1024), "1024");
    assert_eq!(decimal_string(u64::MAX), "18446744073709551615");
}

#[test]
fn response_with_headers_and_body() {
    let lines = vec![String::from("X-A: 1")];
    let (status_line, headers, body) =
        match Response::try_build_response_fields(404, Some(&lines[..]), Some("gone")) {
            Ok(fields) => fields,
            Err(_) => panic!("fields were refused"),
        };
    let response = Response::build_response(status_line, headers, body);
    assert_eq!(
        response.build_response_as_string(),
        "HTTP/1.1 404 Not Found\r\nX-A: 1\r\n\r\ngone"
    );
}

#[test]
fn serializing_a_response_does_not_give_back_the_request() {
    let raw = "GET / HTTP/1.1\r\n\r\n";
    let request = parse(raw);
    let out = route(&request).build_response_as_string();
    assert_ne!(out, raw);
    assert_eq!(out, "HTTP/1.1 200 OK\r\n\r\n");
}
