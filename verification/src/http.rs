//! Request routing and response formatting.
//!
//! Each job the surrounding server submits to the pool handles one
//! connection: read the request line, decide which page it names, read
//! that page, and write back a response. The decisions and the formatting
//! are here, verified; the reading, the writing and the pause for the
//! slow route stay with the embedding.

use vstd::prelude::*;
use vstd::string::*;

verus! {

/// The server's decision for one request line.
#[derive(Clone, Copy, Debug, PartialEq, Eq, Structural)]
pub enum Route {
    /// `GET / HTTP/1.1`: serve the index page at once.
    Index,
    /// `GET /sleep HTTP/1.1`: pause, then serve the index page.
    SleepIndex,
    /// Anything else: serve the not-found page.
    NotFound,
}

/// Which route a request line names.
pub open spec fn spec_route(line: Seq<char>) -> Route {
    if line == "GET / HTTP/1.1"@ {
        Route::Index
    } else if line == "GET /sleep HTTP/1.1"@ {
        Route::SleepIndex
    } else {
        Route::NotFound
    }
}

/// Decide which route a request line names.
pub fn route(request_line: &str) -> (r: Route)
    ensures
        r == spec_route(request_line@),
{
    let line = request_line.to_owned();
    if line == "GET / HTTP/1.1".to_owned() {
        Route::Index
    } else if line == "GET /sleep HTTP/1.1".to_owned() {
        Route::SleepIndex
    } else {
        Route::NotFound
    }
}

impl Route {
    /// The status line of the response for this route.
    pub fn status_line(&self) -> (r: &'static str)
        ensures
            self is NotFound ==> r@ == "HTTP/1.1 404 NOT FOUND"@,
            !(self is NotFound) ==> r@ == "HTTP/1.1 200 OK"@,
    {
        match self {
            Route::NotFound => "HTTP/1.1 404 NOT FOUND",
            _ => "HTTP/1.1 200 OK",
        }
    }

    /// The page served for this route.
    pub fn filename(&self) -> (r: &'static str)
        ensures
            self is NotFound ==> r@ == "404.html"@,
            !(self is NotFound) ==> r@ == "index.html"@,
    {
        match self {
            Route::NotFound => "404.html",
            _ => "index.html",
        }
    }

    /// Whether the route pauses before answering.
    pub fn pauses(&self) -> (r: bool)
        ensures
            r == (self is SleepIndex),
    {
        match self {
            Route::SleepIndex => true,
            _ => false,
        }
    }
}

/// The character for one decimal digit.
pub open spec fn spec_digit_char(d: nat) -> char {
    if d == 0 {
        '0'
    } else if d == 1 {
        '1'
    } else if d == 2 {
        '2'
    } else if d == 3 {
        '3'
    } else if d == 4 {
        '4'
    } else if d == 5 {
        '5'
    } else if d == 6 {
        '6'
    } else if d == 7 {
        '7'
    } else if d == 8 {
        '8'
    } else {
        '9'
    }
}

/// The decimal rendering of a number: no sign, no leading zero except for
/// zero itself.
pub open spec fn spec_decimal(n: nat) -> Seq<char>
    decreases n,
{
    if n < 10 {
        seq![spec_digit_char(n)]
    } else {
        spec_decimal(n / 10) + seq![spec_digit_char(n % 10)]
    }
}

/// The one-character string for a decimal digit.
fn digit_str(d: u64) -> (r: &'static str)
    requires
        d < 10,
    ensures
        r@ == seq![spec_digit_char(d as nat)],
{
    proof {
        reveal_strlit("0");
        reveal_strlit("1");
        reveal_strlit("2");
        reveal_strlit("3");
        reveal_strlit("4");
        reveal_strlit("5");
        reveal_strlit("6");
        reveal_strlit("7");
        reveal_strlit("8");
        reveal_strlit("9");
    }
    if d == 0 {
        "0"
    } else if d == 1 {
        "1"
    } else if d == 2 {
        "2"
    } else if d == 3 {
        "3"
    } else if d == 4 {
        "4"
    } else if d == 5 {
        "5"
    } else if d == 6 {
        "6"
    } else if d == 7 {
        "7"
    } else if d == 8 {
        "8"
    } else {
        "9"
    }
}

/// Render a number in decimal.
pub fn decimal_string(n: u64) -> (r: String)
    ensures
        r@ == spec_decimal(n as nat),
    decreases n,
{
    let d = n % 10;
    let digit = digit_str(d);
    if n < 10 {
        digit.to_owned()
    } else {
        let prefix = decimal_string(n / 10);
        prefix.concat(digit)
    }
}

/// Assemble a response: the status line, a Content-Length header carrying
/// the body's byte length, a blank line, then the body.
pub fn build_response(status_line: &str, contents: &str) -> (r: String)
    requires
        contents.spec_bytes().len() <= usize::MAX,
    ensures
        r@ == status_line@ + "\r\nContent-Length: "@ + spec_decimal(contents.spec_bytes().len())
            + "\r\n\r\n"@ + contents@,
{
    let length = contents.len();
    let mut response = status_line.to_owned();
    response.append("\r\nContent-Length: ");
    let number = decimal_string(length as u64);
    response.append(number.as_str());
    response.append("\r\n\r\n");
    response.append(contents);
    response
}

} // verus!
