use vstd::prelude::*;

use crate::header::{headers_text, models, parse_headers, Header, HeaderError, HeaderModel};
use crate::text::{opt_view, views};

verus! {

/// The protocol version that every response states.
pub const HTTP_SERVER: &'static str = "HTTP/1.1";

/// The reason phrase that accompanies a status code.
#[derive(PartialEq, Eq, Structural, Clone, Copy, Debug)]
pub enum StatusText {
    Okay,
    NotFound,
    InternalServerError,
    BadRequest,
    Invalid,
}

/// The reason phrase that a status code is given: known codes only, anything else is `Invalid`.
pub open spec fn status_text_of(code: u16) -> StatusText {
    if code == 200 {
        StatusText::Okay
    } else if code == 404 {
        StatusText::NotFound
    } else if code == 500 {
        StatusText::InternalServerError
    } else if code == 400 {
        StatusText::BadRequest
    } else {
        StatusText::Invalid
    }
}

/// The words of a reason phrase; none for `Invalid`.
pub open spec fn reason(t: StatusText) -> Seq<char> {
    match t {
        StatusText::Okay => "OK"@,
        StatusText::NotFound => "Not Found"@,
        StatusText::InternalServerError => "Internal Server Error"@,
        StatusText::BadRequest => "Bad Request"@,
        StatusText::Invalid => Seq::empty(),
    }
}

/// The decimal digit for `d`.
pub open spec fn digit(d: nat) -> char
    recommends
        d < 10,
{
    seq!['0', '1', '2', '3', '4', '5', '6', '7', '8', '9'][d as int]
}

/// `n` written in decimal, without leading zeros.
pub open spec fn decimal(n: nat) -> Seq<char>
    decreases n,
{
    if n < 10 {
        seq![digit(n)]
    } else {
        decimal(n / 10) + seq![digit(n % 10)]
    }
}

/// What a status line is.
pub struct StatusLineModel {
    pub version: Seq<char>,
    pub code: u16,
    pub text: StatusText,
}

/// The status line that a code gives.
pub open spec fn status_model(code: u16) -> StatusLineModel {
    StatusLineModel { version: HTTP_SERVER@, code, text: status_text_of(code) }
}

/// A status line on the wire: version, code and reason, one space between each.
pub open spec fn status_line_text(m: StatusLineModel) -> Seq<char> {
    m.version + " "@ + decimal(m.code as nat) + " "@ + reason(m.text)
}

/// What a response is.
pub struct ResponseModel {
    pub status_line: StatusLineModel,
    pub headers: Option<Seq<HeaderModel>>,
    pub body: Option<Seq<char>>,
}

/// A response on the wire: the status line and a line end, the headers (each ending its own
/// line), one more line end, and the body.
pub open spec fn response_text(m: ResponseModel) -> Seq<char> {
    status_line_text(m.status_line) + "\r\n"@ + match m.headers {
        Some(hs) => headers_text(hs),
        None => Seq::empty(),
    } + "\r\n"@ + match m.body {
        Some(b) => b,
        None => Seq::empty(),
    }
}

/// The one-character text for the digit `d`.
fn digit_text(d: u64) -> (r: &'static str)
    requires
        d < 10,
    ensures
        r@ == seq![digit(d as nat)],
{
    proof {
        reveal_strlit("0");
        reveal_strlit("1");
        reveal_strlit("2");
        reveal_strlit("3");
        reveal_strlit("4");
        reveal_strlit("5");
        reveal_strlit("6");
        reveal_strlit("7");
        reveal_strlit("8");
        reveal_strlit("9");
    }
    match d {
        0 => "0",
        1 => "1",
        2 => "2",
        3 => "3",
        4 => "4",
        5 => "5",
        6 => "6",
        7 => "7",
        8 => "8",
        _ => "9",
    }
}

/// `n` written in decimal.
pub fn decimal_string(n: u64) -> (r: String)
    ensures
        r@ == decimal(n as nat),
    decreases n,
{
    if n < 10 {
        digit_text(n).to_owned()
    } else {
        let mut s = decimal_string(n / 10);
        s.append(digit_text(n % 10));
        s
    }
}

impl StatusText {
    /// The reason phrase that a status code is given.
    pub fn identify_status_line(status_code: u16) -> (r: StatusText)
        ensures
            r == status_text_of(status_code),
    {
        match status_code {
            200 => StatusText::Okay,
            404 => StatusText::NotFound,
            500 => StatusText::InternalServerError,
            400 => StatusText::BadRequest,
            _ => StatusText::Invalid,
        }
    }

    /// The words of the reason phrase.
    pub fn status_to_string(&self) -> (r: String)
        ensures
            r@ == reason(*self),
    {
        let result: &str = match self {
            StatusText::Okay => "OK",
            StatusText::NotFound => "Not Found",
            StatusText::InternalServerError => "Internal Server Error",
            StatusText::BadRequest => "Bad Request",
            StatusText::Invalid => "",
        };
        proof {
            reveal_strlit("");
        }
        result.to_owned()
    }
}

/// The first line of a response.
pub struct StatusLine {
    http_version: String,
    status_code: u16,
    status_text: StatusText,
}

impl View for StatusLine {
    type V = StatusLineModel;

    closed spec fn view(&self) -> StatusLineModel {
        StatusLineModel {
            version: self.http_version@,
            code: self.status_code,
            text: self.status_text,
        }
    }
}

impl StatusLine {
    #[verifier::type_invariant]
    spec fn inv(self) -> bool {
        self.http_version@ == HTTP_SERVER@ && self.status_text == status_text_of(self.status_code)
    }

    /// The status line for a code; unknown codes get an empty reason.
    pub fn build(status_code: u16) -> (r: StatusLine)
        ensures
            r@ == status_model(status_code),
    {
        StatusLine {
            http_version: HTTP_SERVER.to_owned(),
            status_code,
            status_text: StatusText::identify_status_line(status_code),
        }
    }

    /// The status code.
    pub fn status_code(&self) -> (r: u16)
        ensures
            r == self@.code,
    {
        self.status_code
    }

    /// The status line on the wire, without its line end.
    pub fn status_line_as_string(status_line: &StatusLine) -> (r: String)
        ensures
            r@ == status_line_text(status_line@),
    {
        let mut s = status_line.http_version.clone();
        s.append(" ");
        let code = decimal_string(status_line.status_code as u64);
        s.append(code.as_str());
        s.append(" ");
        let text = status_line.status_text.status_to_string();
        s.append(text.as_str());
        s
    }
}

/// A response: a status line, optional headers and an optional body.
pub struct Response {
    status_line: StatusLine,
    headers: Option<Vec<Header>>,
    body: Option<String>,
}

/// The models of optional headers.
pub open spec fn opt_models(h: Option<Vec<Header>>) -> Option<Seq<HeaderModel>> {
    match h {
        Some(v) => Some(models(v@)),
        None => None,
    }
}

impl View for Response {
    type V = ResponseModel;

    closed spec fn view(&self) -> ResponseModel {
        ResponseModel {
            status_line: self.status_line@,
            headers: opt_models(self.headers),
            body: opt_view(self.body),
        }
    }
}

impl Response {
    /// A response of the given parts.
    pub fn build_response(
        status_line: StatusLine,
        headers: Option<Vec<Header>>,
        body: Option<String>,
    ) -> (r: Response)
        ensures
            r@ == (ResponseModel {
                status_line: status_line@,
                headers: opt_models(headers),
                body: opt_view(body),
            }),
    {
        Response { status_line, headers, body }
    }

    /// The parts of a response: the status line for the code, the headers that the raw lines
    /// give (none where no lines are given) and the body.
    pub fn try_build_response_fields(
        status_code: u16,
        headers_strings: Option<&[String]>,
        body_string: Option<&str>,
    ) -> (r: Result<(StatusLine, Option<Vec<Header>>, Option<String>), HeaderError>)
        ensures
            r matches Ok(f) && f.0@ == status_model(status_code) && opt_models(f.1) == match headers_strings {
                Some(lines) => Some(parse_headers(views(lines@))),
                None => None,
            } && opt_view(f.2) == match body_string {
                Some(b) => Some(b@),
                None => None,
            },
    {
        let status_line = StatusLine::build(status_code);
        let headers = match headers_strings {
            Some(lines) => match Header::try_build_headers_from_slice(Some(lines)) {
                Ok(h) => Some(h),
                Err(e) => return Err(e),
            },
            None => None,
        };
        let body = match body_string {
            Some(b) => Some(b.to_owned()),
            None => None,
        };
        Ok((status_line, headers, body))
    }

    /// The response on the wire.
    pub fn build_response_as_string(&self) -> (r: String)
        ensures
            r@ == response_text(self@),
    {
        let mut s = StatusLine::status_line_as_string(&self.status_line);
        s.append("\r\n");
        let headers = Header::build_headers_to_string(self.headers.as_ref());
        s.append(headers.as_str());
        s.append("\r\n");
        match &self.body {
            Some(b) => s.append(b.as_str()),
            None => {},
        }
        proof {
            reveal_strlit("");
            assert(response_text(self@) =~= s@);
        }
        s
    }
}

} // verus!
