//! The text of a response: status line, two headers, a blank line.

use vstd::prelude::*;
use vstd::string::StringExecFns;
use vstd::utf8::encode_utf8;

verus! {

/// The status of a response.
#[derive(Clone, Copy, Debug, PartialEq, Eq, Structural)]
pub enum Status {
    Success,
    BadRequest,
    NotFound,
    InternalServerError,
}

impl Status {
    /// The status as it stands in the status line: code and reason.
    pub open spec fn spec_text(self) -> Seq<char> {
        match self {
            Status::Success => "200 OK"@,
            Status::BadRequest => "400 Bad Request"@,
            Status::NotFound => "404 Not Found"@,
            Status::InternalServerError => "500 Internal Server Error"@,
        }
    }

    /// The status as it stands in the status line: code and reason.
    pub fn text(self) -> (t: &'static str)
        ensures
            t@ == self.spec_text(),
    {
        match self {
            Status::Success => "200 OK",
            Status::BadRequest => "400 Bad Request",
            Status::NotFound => "404 Not Found",
            Status::InternalServerError => "500 Internal Server Error",
        }
    }
}

/// The character of a decimal digit.
pub open spec fn digit(d: nat) -> Seq<char> {
    if d == 0 {
        "0"@
    } else if d == 1 {
        "1"@
    } else if d == 2 {
        "2"@
    } else if d == 3 {
        "3"@
    } else if d == 4 {
        "4"@
    } else if d == 5 {
        "5"@
    } else if d == 6 {
        "6"@
    } else if d == 7 {
        "7"@
    } else if d == 8 {
        "8"@
    } else {
        "9"@
    }
}

/// `n` in decimal, without leading zeros.
pub open spec fn decimal(n: nat) -> Seq<char>
    decreases n,
{
    if n < 10 {
        digit(n)
    } else {
        decimal(n / 10) + digit(n % 10)
    }
}

fn digit_text(d: usize) -> (t: &'static str)
    requires
        d < 10,
    ensures
        t@ == digit(d as nat),
{
    if d == 0 {
        "0"
    } else if d == 1 {
        "1"
    } else if d == 2 {
        "2"
    } else if d == 3 {
        "3"
    } else if d == 4 {
        "4"
    } else if d == 5 {
        "5"
    } else if d == 6 {
        "6"
    } else if d == 7 {
        "7"
    } else if d == 8 {
        "8"
    } else {
        "9"
    }
}

/// `n` in decimal, without leading zeros.
pub fn decimal_string(n: usize) -> (text: String)
    ensures
        text@ == decimal(n as nat),
{
    let mut text = String::from_str(digit_text(n % 10));
    let mut rest: usize = n / 10;
    while rest > 0
        invariant
            decimal(n as nat) == (if rest > 0 {
                decimal(rest as nat)
            } else {
                Seq::<char>::empty()
            }) + text@,
        decreases rest,
    {
        let front = String::from_str(digit_text(rest % 10));
        proof {
            let r = rest as nat;
            if r < 10 {
                assert(Seq::<char>::empty() + (digit(r) + text@) =~= decimal(r) + text@);
            } else {
                assert(decimal(r / 10) + (digit(r % 10) + text@) =~= decimal(r) + text@);
            }
        }
        text = front.concat(text.as_str());
        rest = rest / 10;
    }
    proof {
        assert(Seq::<char>::empty() + text@ =~= text@);
    }
    text
}

/// The head of a response that carries a file: status line, content type,
/// the length of the body in bytes, and the blank line after which the body
/// follows.
pub open spec fn file_head(status: Status, mime: Seq<char>, content_len: nat) -> Seq<char> {
    "HTTP/1.1 "@ + status.spec_text() + "\r\nContent-Type: "@ + mime + "\r\nContent-Length: "@
        + decimal(content_len) + "\r\n\r\n"@
}

/// A whole response that reports an error in plain text: the head, with
/// the length of the message in bytes, and the message as the body.
pub open spec fn error_text(status: Status, message: Seq<char>) -> Seq<char> {
    file_head(status, "text/plain"@, encode_utf8(message).len()) + message
}

/// The head of a response with the given status that carries a body of
/// `content_len` bytes of type `mime`.
pub fn file_response_head(status: Status, mime: &str, content_len: usize) -> (head: String)
    ensures
        head@ == file_head(status, mime@, content_len as nat),
{
    let mut head = String::from_str("HTTP/1.1 ");
    head.append(status.text());
    head.append("\r\nContent-Type: ");
    head.append(mime);
    head.append("\r\nContent-Length: ");
    let length = decimal_string(content_len);
    head.append(length.as_str());
    head.append("\r\n\r\n");
    head
}

/// The response that reports an error: `message` as plain text under the
/// given status.
pub fn error_response(status: Status, message: &str) -> (response: String)
    ensures
        response@ == error_text(status, message@),
{
    let body_len = message.as_bytes().len();
    let mut response = file_response_head(status, "text/plain", body_len);
    response.append(message);
    response
}

} // verus!
