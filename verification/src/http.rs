//! The demonstration site that the pool serves: which page answers a request
//! line, and the text of a response.
use vstd::prelude::*;
use vstd::string::StringExecFns;

verus! {

/// The pages of the site.
#[derive(Clone, Copy, Debug, PartialEq, Eq, Structural)]
pub enum Page {
    /// The greeting.
    Hello,
    /// The greeting, sent after a pause.
    Sleep,
    /// The answer to every other request.
    NotFound,
}

impl Page {
    /// The page that answers a request line.
    pub open spec fn of(request_line: Seq<char>) -> Page {
        if request_line == "GET / HTTP/1.1"@ {
            Page::Hello
        } else if request_line == "GET /sleep HTTP/1.1"@ {
            Page::Sleep
        } else {
            Page::NotFound
        }
    }

    /// The status line of the response that carries the page.
    pub open spec fn spec_status_line(self) -> Seq<char> {
        match self {
            Page::Hello | Page::Sleep => "HTTP/1.1 200 OK"@,
            Page::NotFound => "HTTP/1.1 404 NOT FOUND"@,
        }
    }

    /// The name of the file that holds the page.
    pub open spec fn spec_file(self) -> Seq<char> {
        match self {
            Page::Hello | Page::Sleep => "hello.html"@,
            Page::NotFound => "error.html"@,
        }
    }

    /// Picks the page for a request line: the two known lines have pages of
    /// their own, every other line gets `NotFound`.
    pub fn route(request_line: &str) -> (page: Page)
        ensures
            page == Page::of(request_line@),
    {
        let line = String::from_str(request_line);
        if line == String::from_str("GET / HTTP/1.1") {
            Page::Hello
        } else if line == String::from_str("GET /sleep HTTP/1.1") {
            Page::Sleep
        } else {
            Page::NotFound
        }
    }

    /// The status line of the response that carries this page.
    pub fn status_line(&self) -> (line: &'static str)
        ensures
            line@ == self.spec_status_line(),
    {
        match self {
            Page::Hello | Page::Sleep => "HTTP/1.1 200 OK",
            Page::NotFound => "HTTP/1.1 404 NOT FOUND",
        }
    }

    /// The name of the file that holds this page.
    pub fn file(&self) -> (name: &'static str)
        ensures
            name@ == self.spec_file(),
    {
        match self {
            Page::Hello | Page::Sleep => "hello.html",
            Page::NotFound => "error.html",
        }
    }

    /// How many seconds to pause before this page is sent: five for `Sleep`,
    /// none for the others.
    pub fn delay_seconds(&self) -> (seconds: u64)
        ensures
            seconds == if *self == Page::Sleep { 5u64 } else { 0u64 },
    {
        match self {
            Page::Sleep => 5,
            _ => 0,
        }
    }
}

/// The character of a decimal digit.
pub open spec fn digit(d: nat) -> char
    recommends
        d < 10,
{
    "0123456789"@[d as int]
}

/// The decimal numeral of `n`, without leading zeros.
pub open spec fn decimal(n: nat) -> Seq<char>
    decreases n,
{
    if n < 10 {
        seq![digit(n)]
    } else {
        decimal(n / 10).push(digit(n % 10))
    }
}

/// The text of a response: the status line, the length of the body in bytes,
/// an empty line, the body.
pub open spec fn response_text(status_line: Seq<char>, length: nat, contents: Seq<char>) -> Seq<
    char,
> {
    status_line + "\r\n"@ + "Content-Length: "@ + decimal(length) + "\r\n\r\n"@ + contents
}

/// The one-character string of a decimal digit.
fn digit_str(d: usize) -> (s: &'static str)
    requires
        d < 10,
    ensures
        s@ == seq![digit(d as nat)],
{
    proof {
        reveal_strlit("0123456789");
        reveal_strlit("0");
        reveal_strlit("1");
        reveal_strlit("2");
        reveal_strlit("3");
        reveal_strlit("4");
        reveal_strlit("5");
        reveal_strlit("6");
        reveal_strlit("7");
        reveal_strlit("8");
        reveal_strlit("9");
    }
    let s = if d == 0 {
        "0"
    } else if d == 1 {
        "1"
    } else if d == 2 {
        "2"
    } else if d == 3 {
        "3"
    } else if d == 4 {
        "4"
    } else if d == 5 {
        "5"
    } else if d == 6 {
        "6"
    } else if d == 7 {
        "7"
    } else if d == 8 {
        "8"
    } else {
        "9"
    };
    assert(s@ =~= seq![digit(d as nat)]);
    s
}

/// Writes `n` in decimal.
pub fn decimal_string(n: usize) -> (s: String)
    ensures
        s@ == decimal(n as nat),
    decreases n,
{
    if n < 10 {
        String::from_str(digit_str(n))
    } else {
        let mut s = decimal_string(n / 10);
        s.append(digit_str(n % 10));
        assert(s@ =~= decimal((n / 10) as nat).push(digit((n % 10) as nat)));
        s
    }
}

/// Builds the response that carries `contents` under `status_line`.
pub fn response(status_line: &str, contents: &str) -> (reply: String)
    ensures
        reply@ == response_text(status_line@, contents.len() as nat, contents@),
{
    let mut reply = String::from_str(status_line);
    reply.append("\r\n");
    reply.append("Content-Length: ");
    let length = decimal_string(contents.len());
    reply.append(length.as_str());
    reply.append("\r\n\r\n");
    reply.append(contents);
    reply
}

} // verus!
