use vstd::prelude::*;
use vstd::utf8::encode_utf8;

use crate::header::{lemma_no_split_without, pair_model, Header, HeaderModel};
use crate::request::{parse_request, Request, RequestModel};
use crate::response::{
    decimal, decimal_string, response_text, status_model, Response, ResponseModel, StatusLine,
};
use crate::text::is_text;

verus! {

/// Whether a request can be answered: the echo route needs a trailing segment to echo.
pub open spec fn routable(req: RequestModel) -> bool {
    req.start_line.target.path == "echo"@ ==> req.start_line.target.trailing_segment is Some
}

/// The length in bytes of the UTF-8 encoding of `s`, as `str::len` gives it.
pub open spec fn byte_len(s: Seq<char>) -> nat {
    (encode_utf8(s).len() as usize) as nat
}

/// The headers of an echo response for `body`: its type, then its length in bytes.
pub open spec fn echo_headers(body: Seq<char>) -> Seq<HeaderModel> {
    seq![
        HeaderModel { name: "Content-Type"@, value: "text/plain"@ },
        HeaderModel { name: "Content-Length"@, value: decimal(byte_len(body)) },
    ]
}

/// The response to a request, chosen by its route path: `/` gets 200 with nothing more,
/// `echo` gets 200 with the trailing segment as a plain-text body, anything else gets 404.
pub open spec fn route_model(req: RequestModel) -> ResponseModel {
    let target = req.start_line.target;
    if target.path == "/"@ {
        ResponseModel { status_line: status_model(200), headers: None, body: None }
    } else if target.path == "echo"@ {
        let body = target.trailing_segment->0;
        ResponseModel {
            status_line: status_model(200),
            headers: Some(echo_headers(body)),
            body: Some(body),
        }
    } else {
        ResponseModel { status_line: status_model(404), headers: None, body: None }
    }
}

/// What one exchange sends back for a raw request: nothing where the request cannot be read
/// or answered, else the routed response on the wire.
pub open spec fn exchange(raw: Seq<char>) -> Option<Seq<char>> {
    match parse_request(raw) {
        Ok(m) => if routable(m) {
            Some(response_text(route_model(m)))
        } else {
            None
        },
        Err(_) => None,
    }
}

/// Chooses the response to a request by its route path.
pub fn route(request: &Request) -> (r: Response)
    requires
        routable(request@),
    ensures
        r@ == route_model(request@),
{
    let target = &request.start_line.request_target;
    if is_text(&target.path, "/") {
        Response::build_response(StatusLine::build(200), None, None)
    } else if is_text(&target.path, "echo") {
        let body = target.trailing_segment.as_ref().unwrap().clone();
        let length = body.as_str().len();
        let pairs = vec![
            ("Content-Type".to_owned(), "text/plain".to_owned()),
            ("Content-Length".to_owned(), decimal_string(length as u64)),
        ];
        proof {
            reveal_strlit("Content-Type");
            reveal_strlit("Content-Length");
            lemma_no_split_without("Content-Type"@, ':', ' ');
            lemma_no_split_without("Content-Length"@, ':', ' ');
            assert(pairs@[0].0@ == "Content-Type"@);
            assert(pairs@[1].0@ == "Content-Length"@);
            assert(pairs@[0].1@ == "text/plain"@);
            assert(length as u64 as nat == byte_len(body@));
        }
        let ghost given = pairs@;
        let headers = Header::try_build_headers_from_hashmap(pairs);
        let r = Response::build_response(StatusLine::build(200), Some(headers), Some(body));
        proof {
            assert(given.map_values(|p: (String, String)| pair_model(p)) =~= echo_headers(body@));
        }
        r
    } else {
        Response::build_response(StatusLine::build(404), None, None)
    }
}

/// The bytes that one exchange sends back for a raw request, or `None` where nothing is to be
/// sent: the request could not be read, or the echo route has no segment to echo.
pub fn handle_request(request_string: String) -> (r: Option<String>)
    ensures
        match exchange(request_string@) {
            Some(t) => r matches Some(s) && s@ == t,
            None => r is None,
        },
{
    match Request::extract_request_fields(request_string) {
        Ok((start_line, headers, body)) => {
            let request = Request::new(start_line, headers, body);
            if is_text(&request.start_line.request_target.path, "echo") {
                if request.start_line.request_target.trailing_segment.is_none() {
                    return None;
                }
            }
            let response = route(&request);
            Some(response.build_response_as_string())
        },
        Err(_) => None,
    }
}

} // verus!
