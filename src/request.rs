use vstd::prelude::*;

use crate::header::{models, parse_headers, Header, HeaderModel};
use crate::text::{
    drop_empty, is_text, non_empty, opt_view, split_on_pair, split_pair, split_words, splitn_char, splitn_on_char,
    views, words, is_space, lemma_words_append, lemma_words_single,
};

verus! {

/// The request methods that are understood.
#[derive(PartialEq, Eq, Structural, Clone, Copy, Debug)]
pub enum Method {
    GET,
    POST,
    PUT,
    PATCH,
    DELETE,
}

/// The protocol versions that are understood.
#[derive(PartialEq, Eq, Structural, Clone, Copy, Debug)]
pub enum HttpVersion {
    Http09,
    Http10,
    Http11,
    Http20,
    Http30,
}

/// Why a raw request could not be read.
#[derive(PartialEq, Eq, Structural, Clone, Copy, Debug)]
pub enum RequestError {
    /// The first line is missing, is not three tokens, or names an unknown method or version.
    InvalidStartLine,
    /// There is no header block at all.
    InvalidHeader,
    /// Kept for checks on the body's length; no input gives it.
    InvalidBody,
}

/// The method that a token names, if it names one.
pub open spec fn method_of(tok: Seq<char>) -> Option<Method> {
    if tok == "GET"@ {
        Some(Method::GET)
    } else if tok == "POST"@ {
        Some(Method::POST)
    } else if tok == "PUT"@ {
        Some(Method::PUT)
    } else if tok == "PATCH"@ {
        Some(Method::PATCH)
    } else if tok == "DELETE"@ {
        Some(Method::DELETE)
    } else {
        None
    }
}

/// The version that a token names, if it names one.
pub open spec fn version_of(tok: Seq<char>) -> Option<HttpVersion> {
    if tok == "HTTP/0.9"@ {
        Some(HttpVersion::Http09)
    } else if tok == "HTTP/1.0"@ {
        Some(HttpVersion::Http10)
    } else if tok == "HTTP/1.1"@ {
        Some(HttpVersion::Http11)
    } else if tok == "HTTP/2.0"@ {
        Some(HttpVersion::Http20)
    } else if tok == "HTTP/3.0"@ {
        Some(HttpVersion::Http30)
    } else {
        None
    }
}

/// The token that names a method.
pub open spec fn method_text(m: Method) -> Seq<char> {
    match m {
        Method::GET => "GET"@,
        Method::POST => "POST"@,
        Method::PUT => "PUT"@,
        Method::PATCH => "PATCH"@,
        Method::DELETE => "DELETE"@,
    }
}

/// The token that names a version.
pub open spec fn version_text(v: HttpVersion) -> Seq<char> {
    match v {
        HttpVersion::Http09 => "HTTP/0.9"@,
        HttpVersion::Http10 => "HTTP/1.0"@,
        HttpVersion::Http11 => "HTTP/1.1"@,
        HttpVersion::Http20 => "HTTP/2.0"@,
        HttpVersion::Http30 => "HTTP/3.0"@,
    }
}

/// A method's token names that method and holds no space.
pub proof fn lemma_method_text(m: Method)
    ensures
        method_of(method_text(m)) == Some(m),
        method_text(m).len() > 0,
        forall|i: int| 0 <= i < method_text(m).len() ==> !is_space(#[trigger] method_text(m)[i]),
{
    reveal_strlit("GET");
    reveal_strlit("POST");
    reveal_strlit("PUT");
    reveal_strlit("PATCH");
    reveal_strlit("DELETE");
    assert("GET"@[0] != "POST"@[0] && "GET"@[0] != "PATCH"@[0] && "GET"@[0] != "DELETE"@[0]);
    assert("GET"@[0] != "PUT"@[0]);
    assert("POST"@[1] != "PUT"@[1] && "POST"@[1] != "PATCH"@[1] && "POST"@[0] != "DELETE"@[0]);
    assert("PUT"@ != "PATCH"@ && "PUT"@ != "DELETE"@);
    assert("PATCH"@ != "DELETE"@);
}

/// A version's token names that version and holds no space.
pub proof fn lemma_version_text(v: HttpVersion)
    ensures
        version_of(version_text(v)) == Some(v),
        version_text(v).len() > 0,
        forall|i: int|
            0 <= i < version_text(v).len() ==> !is_space(#[trigger] version_text(v)[i]),
{
    reveal_strlit("HTTP/0.9");
    reveal_strlit("HTTP/1.0");
    reveal_strlit("HTTP/1.1");
    reveal_strlit("HTTP/2.0");
    reveal_strlit("HTTP/3.0");
    assert("HTTP/0.9"@[7] != "HTTP/1.0"@[7]);
    assert("HTTP/0.9"@[5] != "HTTP/1.1"@[5]);
    assert("HTTP/0.9"@[5] != "HTTP/2.0"@[5]);
    assert("HTTP/0.9"@[5] != "HTTP/3.0"@[5]);
    assert("HTTP/1.0"@[7] != "HTTP/1.1"@[7]);
    assert("HTTP/1.0"@[5] != "HTTP/2.0"@[5]);
    assert("HTTP/1.0"@[5] != "HTTP/3.0"@[5]);
    assert("HTTP/1.1"@[5] != "HTTP/2.0"@[5]);
    assert("HTTP/1.1"@[5] != "HTTP/3.0"@[5]);
    assert("HTTP/2.0"@[5] != "HTTP/3.0"@[5]);
}

/// A start line made of a known method, a target token and a known version, a space between
/// each, reads back as that method, the target that the token gives, and that version.
pub proof fn lemma_start_line_round_trip(m: Method, target: Seq<char>, v: HttpVersion)
    requires
        target.len() > 0,
        forall|i: int| 0 <= i < target.len() ==> !is_space(#[trigger] target[i]),
    ensures
        parse_start_line(method_text(m) + " "@ + target + " "@ + version_text(v)) == Ok::<
            StartLineModel,
            RequestError,
        >(StartLineModel { method: m, target: parse_target(target), version: v }),
{
    reveal_strlit(" ");
    lemma_method_text(m);
    lemma_version_text(v);
    let a = method_text(m) + " "@;
    let b = target + " "@;
    let c = version_text(v);
    assert(method_text(m) + " "@ + target + " "@ + c =~= a + (b + c));
    lemma_words_append(a, b + c);
    lemma_words_append(b, c);
    assert(a.drop_last() =~= method_text(m));
    assert(b.drop_last() =~= target);
    lemma_words_single(method_text(m));
    lemma_words_single(target);
    lemma_words_single(c);
    assert(words(a) == words(method_text(m)));
    assert(words(b) == words(target));
    let w = words(a + (b + c));
    assert(w =~= seq![method_text(m), target, c]);
}

/// A raw request whose first line is not three tokens, or names an unknown method or
/// version, is refused for its start line.
pub proof fn lemma_bad_start_line_refused(raw: Seq<char>)
    requires
        ({
            let w = words(split_pair(raw, '\r', '\n')[0]);
            w.len() != 3 || method_of(w[0]) is None || version_of(w[2]) is None
        }),
    ensures
        parse_request(raw) == Err::<RequestModel, RequestError>(RequestError::InvalidStartLine),
{
}

/// What a request target is: the raw text, the route path and the trailing segment.
pub struct TargetModel {
    pub full_path: Seq<char>,
    pub path: Seq<char>,
    pub trailing_segment: Option<Seq<char>>,
}

/// The non-empty segments of a raw target, split on `/` into at most three pieces.
pub open spec fn segments(t: Seq<char>) -> Seq<Seq<char>> {
    non_empty(splitn_char(t, 3, '/'))
}

/// The target that a raw target gives: the first segment is the path (`/` where there is
/// none), the last is the trailing segment where there are two or more.
pub open spec fn parse_target(t: Seq<char>) -> TargetModel {
    let segs = segments(t);
    TargetModel {
        full_path: t,
        path: if segs.len() == 0 {
            "/"@
        } else {
            segs[0]
        },
        trailing_segment: if segs.len() > 1 {
            Some(segs.last())
        } else {
            None
        },
    }
}

/// What a start line is.
pub struct StartLineModel {
    pub method: Method,
    pub target: TargetModel,
    pub version: HttpVersion,
}

/// The start line that a raw line gives: exactly three whitespace-separated tokens, a known
/// method, any target and a known version, the method checked first.
pub open spec fn parse_start_line(line: Seq<char>) -> Result<StartLineModel, RequestError> {
    let w = words(line);
    if w.len() != 3 {
        Err(RequestError::InvalidStartLine)
    } else {
        match method_of(w[0]) {
            None => Err(RequestError::InvalidStartLine),
            Some(m) => match version_of(w[2]) {
                None => Err(RequestError::InvalidStartLine),
                Some(v) => Ok(StartLineModel { method: m, target: parse_target(w[1]), version: v }),
            },
        }
    }
}

/// What a request is.
pub struct RequestModel {
    pub start_line: StartLineModel,
    pub headers: Seq<HeaderModel>,
    pub body: Option<Seq<char>>,
}

/// The body that the last line of a raw request gives: none where it is empty.
pub open spec fn body_of(last: Seq<char>) -> Option<Seq<char>> {
    if last.len() == 0 {
        None
    } else {
        Some(last)
    }
}

/// The request that a raw buffer gives. Its lines are split on `\r\n`: the first is the start
/// line, the last the body, those between are header lines. A buffer of one line has no
/// header block at all.
pub open spec fn parse_request(raw: Seq<char>) -> Result<RequestModel, RequestError> {
    let lines = split_pair(raw, '\r', '\n');
    match parse_start_line(lines[0]) {
        Err(e) => Err(e),
        Ok(sl) => if lines.len() < 2 {
            Err(RequestError::InvalidHeader)
        } else {
            Ok(
                RequestModel {
                    start_line: sl,
                    headers: parse_headers(lines.subrange(1, lines.len() - 1)),
                    body: body_of(lines.last()),
                },
            )
        },
    }
}

/// The target of a request, split into its route path and trailing segment.
pub struct RequestTarget {
    pub full_path: String,
    pub path: String,
    pub trailing_segment: Option<String>,
}

impl View for RequestTarget {
    type V = TargetModel;

    open spec fn view(&self) -> TargetModel {
        TargetModel {
            full_path: self.full_path@,
            path: self.path@,
            trailing_segment: opt_view(self.trailing_segment),
        }
    }
}

/// The first line of a request.
pub struct StartLine {
    pub method: Method,
    pub request_target: RequestTarget,
    pub http_version: HttpVersion,
}

impl View for StartLine {
    type V = StartLineModel;

    open spec fn view(&self) -> StartLineModel {
        StartLineModel {
            method: self.method,
            target: self.request_target@,
            version: self.http_version,
        }
    }
}

/// A parsed request.
pub struct Request {
    pub start_line: StartLine,
    pub headers: Vec<Header>,
    pub body: Option<String>,
}

impl View for Request {
    type V = RequestModel;

    open spec fn view(&self) -> RequestModel {
        RequestModel {
            start_line: self.start_line@,
            headers: models(self.headers@),
            body: opt_view(self.body),
        }
    }
}

impl Method {
    /// The method that a token names; an error where it names none or is missing.
    pub fn identify_method(method_string: Option<&String>) -> (r: Result<Method, RequestError>)
        ensures
            r == match method_string {
                Some(t) => match method_of(t@) {
                    Some(m) => Ok(m),
                    None => Err(RequestError::InvalidStartLine),
                },
                None => Err(RequestError::InvalidStartLine),
            },
    {
        match method_string {
            Some(method) => {
                if is_text(method, "GET") {
                    Ok(Method::GET)
                } else if is_text(method, "POST") {
                    Ok(Method::POST)
                } else if is_text(method, "PUT") {
                    Ok(Method::PUT)
                } else if is_text(method, "PATCH") {
                    Ok(Method::PATCH)
                } else if is_text(method, "DELETE") {
                    Ok(Method::DELETE)
                } else {
                    Err(RequestError::InvalidStartLine)
                }
            },
            None => Err(RequestError::InvalidStartLine),
        }
    }
}

impl HttpVersion {
    /// The version that a token names; an error where it names none or is missing.
    pub fn identify_http_version(possible_http_version: Option<&String>) -> (r: Result<
        HttpVersion,
        RequestError,
    >)
        ensures
            r == match possible_http_version {
                Some(t) => match version_of(t@) {
                    Some(v) => Ok(v),
                    None => Err(RequestError::InvalidStartLine),
                },
                None => Err(RequestError::InvalidStartLine),
            },
    {
        match possible_http_version {
            Some(version) => {
                if is_text(version, "HTTP/0.9") {
                    Ok(HttpVersion::Http09)
                } else if is_text(version, "HTTP/1.0") {
                    Ok(HttpVersion::Http10)
                } else if is_text(version, "HTTP/1.1") {
                    Ok(HttpVersion::Http11)
                } else if is_text(version, "HTTP/2.0") {
                    Ok(HttpVersion::Http20)
                } else if is_text(version, "HTTP/3.0") {
                    Ok(HttpVersion::Http30)
                } else {
                    Err(RequestError::InvalidStartLine)
                }
            },
            None => Err(RequestError::InvalidStartLine),
        }
    }
}

impl RequestTarget {
    /// The target that a raw target gives; an error where it is missing.
    pub fn build(possible_full_path: Option<&String>) -> (r: Result<RequestTarget, RequestError>)
        ensures
            match possible_full_path {
                Some(t) => r matches Ok(rt) && rt@ == parse_target(t@),
                None => r == Err::<RequestTarget, RequestError>(RequestError::InvalidStartLine),
            },
    {
        match possible_full_path {
            Some(full_path) => {
                let pieces = splitn_on_char(full_path.as_str(), 3, '/');
                let segs = drop_empty(&pieces);
                if segs.len() == 0 {
                    return Ok(
                        RequestTarget {
                            full_path: full_path.clone(),
                            path: "/".to_owned(),
                            trailing_segment: None,
                        },
                    );
                }
                let path = segs[0].clone();
                let trailing_segment = if segs.len() > 1 {
                    Some(segs[segs.len() - 1].clone())
                } else {
                    None
                };
                proof {
                    assert(views(segs@)[0] == segs@[0]@);
                    assert(views(segs@).last() == segs@[segs@.len() - 1]@);
                }
                Ok(RequestTarget { full_path: full_path.clone(), path, trailing_segment })
            },
            None => Err(RequestError::InvalidStartLine),
        }
    }
}

impl StartLine {
    /// The start line that a raw line gives; an error where it is missing, has other than
    /// three tokens, or names an unknown method or version.
    pub fn build(start_line_string: Option<&String>) -> (r: Result<StartLine, RequestError>)
        ensures
            match start_line_string {
                Some(line) => match parse_start_line(line@) {
                    Ok(m) => r matches Ok(sl) && sl@ == m,
                    Err(e) => r == Err::<StartLine, RequestError>(e),
                },
                None => r == Err::<StartLine, RequestError>(RequestError::InvalidStartLine),
            },
    {
        match start_line_string {
            Some(stl_string) => {
                let fields = split_words(stl_string.as_str());
                if fields.len() != 3 {
                    return Err(RequestError::InvalidStartLine);
                }
                proof {
                    assert(views(fields@)[0] == fields@[0]@);
                    assert(views(fields@)[1] == fields@[1]@);
                    assert(views(fields@)[2] == fields@[2]@);
                }
                let method = match Method::identify_method(Some(&fields[0])) {
                    Ok(method) => method,
                    Err(e) => return Err(e),
                };
                let request_target = match RequestTarget::build(Some(&fields[1])) {
                    Ok(req_target) => req_target,
                    Err(e) => return Err(e),
                };
                let http_version = match HttpVersion::identify_http_version(Some(&fields[2])) {
                    Ok(http_v) => http_v,
                    Err(e) => return Err(e),
                };
                Ok(StartLine { method, request_target, http_version })
            },
            None => Err(RequestError::InvalidStartLine),
        }
    }
}

impl Request {
    /// A request of the given parts.
    pub fn new(start_line: StartLine, headers: Vec<Header>, body: Option<String>) -> (r: Request)
        ensures
            r.start_line == start_line,
            r.headers == headers,
            r.body == body,
    {
        Request { start_line, headers, body }
    }

    /// The start line, headers and body that a raw request gives, or why it gives none.
    pub fn extract_request_fields(request_string: String) -> (r: Result<
        (StartLine, Vec<Header>, Option<String>),
        RequestError,
    >)
        ensures
            match parse_request(request_string@) {
                Ok(m) => r matches Ok(f) && f.0@ == m.start_line && models(f.1@) == m.headers
                    && opt_view(f.2) == m.body,
                Err(e) => r == Err::<(StartLine, Vec<Header>, Option<String>), RequestError>(e),
            },
    {
        let lines = split_on_pair(request_string.as_str(), '\r', '\n');
        proof {
            crate::text::lemma_split_pair_nonempty(request_string@, '\r', '\n');
            assert(views(lines@)[0] == lines@[0]@);
        }
        let start_line = match StartLine::build(Some(&lines[0])) {
            Ok(stl) => stl,
            Err(e) => return Err(e),
        };
        if lines.len() < 2 {
            return Err(RequestError::InvalidHeader);
        }
        let n = lines.len();
        let (_, rest) = lines.as_slice().split_at(1);
        let (middle, _) = rest.split_at(n - 2);
        proof {
            assert(views(middle@) =~= views(lines@).subrange(1, n - 1));
        }
        let headers = match Header::try_build_headers_from_slice(Some(middle)) {
            Ok(headers) => headers,
            Err(_) => return Err(RequestError::InvalidHeader),
        };
        let last = &lines[n - 1];
        proof {
            assert(views(lines@).last() == last@);
        }
        let body = if last.as_str().is_empty() {
            None
        } else {
            Some(last.clone())
        };
        Ok((start_line, headers, body))
    }
}

} // verus!
