//! HTTP responses and their serialization to wire format.
//!
//! Serialization is pure and total: every response value produces exactly one
//! byte sequence, given here as the characters of a `String` (the wire bytes
//! are its UTF-8 encoding). The status line is `HTTP/1.1 <code> <reason>`;
//! a body adds `Content-Type` and `Content-Length` headers, a blank line
//! separates headers from the body, and no trailing terminator is added
//! beyond what the body itself contains.

use vstd::prelude::*;
use vstd::string::StringExecFns;
use vstd::utf8::encode_utf8;

verus! {

/// The closed set of status codes this server ever emits.
#[derive(Clone, Copy, Debug, PartialEq, Eq, Structural)]
pub enum StatusCode {
    Okay,
    NotFound,
    Created,
}

/// A response body: a content type and the content itself.
#[derive(Debug, PartialEq, Eq)]
pub struct ResponseBody {
    pub content_type: String,
    pub content: String,
}

/// A response: a status code and an optional body.
#[derive(Debug, PartialEq, Eq)]
pub struct HttpResponse {
    pub status_code: StatusCode,
    pub body: Option<ResponseBody>,
}

/// The mathematical value of a response: its status and, if a body is
/// present, the characters of its content type and content.
pub struct ResponseModel {
    pub status: StatusCode,
    pub body: Option<(Seq<char>, Seq<char>)>,
}

/// The model of a response value.
pub open spec fn response_view(r: HttpResponse) -> ResponseModel {
    ResponseModel {
        status: r.status_code,
        body: match r.body {
            None => None,
            Some(b) => Some((b.content_type@, b.content@)),
        },
    }
}

/// The status line for each status code, without the line terminator.
pub open spec fn spec_status_line(sc: StatusCode) -> Seq<char> {
    match sc {
        StatusCode::Okay => "HTTP/1.1 200 OK"@,
        StatusCode::NotFound => "HTTP/1.1 404 NOT FOUND"@,
        StatusCode::Created => "HTTP/1.1 201 Created"@,
    }
}

/// The decimal digit for `d`.
pub open spec fn spec_digit(d: int) -> char {
    if d == 0 {
        '0'
    } else if d == 1 {
        '1'
    } else if d == 2 {
        '2'
    } else if d == 3 {
        '3'
    } else if d == 4 {
        '4'
    } else if d == 5 {
        '5'
    } else if d == 6 {
        '6'
    } else if d == 7 {
        '7'
    } else if d == 8 {
        '8'
    } else {
        '9'
    }
}

/// The decimal digits of `n`, most significant first, with no leading zero
/// except for `n == 0` itself.
pub open spec fn spec_dec(n: int) -> Seq<char>
    decreases n,
{
    if n < 10 {
        seq![spec_digit(n)]
    } else {
        spec_dec(n / 10).push(spec_digit(n % 10))
    }
}

/// The number of wire bytes of a content string: the length of its UTF-8
/// encoding, as it fits in a machine word.
pub open spec fn spec_byte_len(content: Seq<char>) -> int {
    (encode_utf8(content).len() as usize) as int
}

/// The wire text a body contributes: its two headers, the blank line that
/// ends the headers, and the content, with nothing after it.
pub open spec fn spec_body_fragment(ctype: Seq<char>, content: Seq<char>) -> Seq<char> {
    "Content-Type: "@ + ctype + "\r\nContent-Length: "@ + spec_dec(spec_byte_len(content))
        + "\r\n\r\n"@ + content
}

/// The full wire text of a response.
pub open spec fn spec_serialize(r: ResponseModel) -> Seq<char> {
    match r.body {
        None => spec_status_line(r.status) + "\r\n\r\n"@,
        Some((ctype, content)) => spec_status_line(r.status) + "\r\n"@ + spec_body_fragment(
            ctype,
            content,
        ),
    }
}

/// One decimal digit as a string.
fn digit_str(d: usize) -> (r: &'static str)
    requires
        d < 10,
    ensures
        r@ == seq![spec_digit(d as int)],
{
    proof {
        reveal_strlit("0");
        reveal_strlit("1");
        reveal_strlit("2");
        reveal_strlit("3");
        reveal_strlit("4");
        reveal_strlit("5");
        reveal_strlit("6");
        reveal_strlit("7");
        reveal_strlit("8");
        reveal_strlit("9");
        assert("0"@ =~= seq!['0']);
        assert("1"@ =~= seq!['1']);
        assert("2"@ =~= seq!['2']);
        assert("3"@ =~= seq!['3']);
        assert("4"@ =~= seq!['4']);
        assert("5"@ =~= seq!['5']);
        assert("6"@ =~= seq!['6']);
        assert("7"@ =~= seq!['7']);
        assert("8"@ =~= seq!['8']);
        assert("9"@ =~= seq!['9']);
    }
    if d == 0 {
        "0"
    } else if d == 1 {
        "1"
    } else if d == 2 {
        "2"
    } else if d == 3 {
        "3"
    } else if d == 4 {
        "4"
    } else if d == 5 {
        "5"
    } else if d == 6 {
        "6"
    } else if d == 7 {
        "7"
    } else if d == 8 {
        "8"
    } else {
        "9"
    }
}

/// The decimal representation of `n`.
pub fn dec_string(n: usize) -> (r: String)
    ensures
        r@ == spec_dec(n as int),
    decreases n,
{
    if n < 10 {
        String::from_str(digit_str(n))
    } else {
        let mut s = dec_string(n / 10);
        s.append(digit_str(n % 10));
        s
    }
}

impl StatusCode {
    /// The status line for this code, without the line terminator.
    pub fn status_line(&self) -> (r: &'static str)
        ensures
            r@ == spec_status_line(*self),
    {
        match self {
            StatusCode::Okay => "HTTP/1.1 200 OK",
            StatusCode::NotFound => "HTTP/1.1 404 NOT FOUND",
            StatusCode::Created => "HTTP/1.1 201 Created",
        }
    }
}

impl ResponseBody {
    /// The wire text this body contributes to its response.
    pub fn to_wire_string(&self) -> (r: String)
        ensures
            r@ == spec_body_fragment(self.content_type@, self.content@),
    {
        let mut out = String::new();
        out.append("Content-Type: ");
        out.append(self.content_type.as_str());
        out.append("\r\nContent-Length: ");
        let len = self.content.as_str().len();
        let digits = dec_string(len);
        out.append(digits.as_str());
        out.append("\r\n\r\n");
        out.append(self.content.as_str());
        out
    }
}

impl HttpResponse {
    /// The full wire text of this response.
    pub fn to_wire_string(&self) -> (r: String)
        ensures
            r@ == spec_serialize(response_view(*self)),
    {
        let mut out = String::new();
        out.append(self.status_code.status_line());
        match &self.body {
            None => {
                out.append("\r\n\r\n");
            },
            Some(b) => {
                out.append("\r\n");
                let fragment = b.to_wire_string();
                out.append(fragment.as_str());
            },
        }
        out
    }
}

/// Identical response values serialize to identical wire text: the output is
/// a function of the response value alone.
pub proof fn lemma_serialize_deterministic(a: HttpResponse, b: HttpResponse)
    requires
        response_view(a) == response_view(b),
    ensures
        spec_serialize(response_view(a)) == spec_serialize(response_view(b)),
{
}

} // verus!

