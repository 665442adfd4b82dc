//! The opening request: what the client asks the proxy for.
//!
//! The request line is parsed by `httparse`. What the parser finds decides
//! whether the client wants a tunnel or sends a plain request for an absolute
//! URL.

use vstd::prelude::*;
use crate::event::{Ending, EndingView};

verus! {

/// The most that is read of an opening request, in bytes.
pub const REQUEST_CAP: usize = 1024;

/// The most headers that an opening request may carry.
pub const MAX_HEADERS: usize = 16;

/// What the parser found of a request line. A part is missing where the
/// buffer ended before it was complete.
#[derive(Clone, Debug, PartialEq, Eq)]
pub struct RequestLine {
    pub method: Option<String>,
    pub path: Option<String>,
}

/// The mathematical content of a [`RequestLine`].
pub struct RequestLineView {
    pub method: Option<Seq<char>>,
    pub path: Option<Seq<char>>,
}

impl View for RequestLine {
    type V = RequestLineView;

    open spec fn view(&self) -> RequestLineView {
        RequestLineView {
            method: match self.method {
                Some(text) => Some(text@),
                None => None,
            },
            path: match self.path {
                Some(text) => Some(text@),
                None => None,
            },
        }
    }
}

/// The mathematical content of a parser's answer.
pub open spec fn parse_view(parsed: Result<RequestLine, String>) -> Result<
    RequestLineView,
    Seq<char>,
> {
    match parsed {
        Ok(line) => Ok(line@),
        Err(detail) => Err(detail@),
    }
}

/// What `httparse` makes of `bytes` as a request with room for `max_headers`
/// headers: the method and path that it found, or the text of its error.
pub uninterp spec fn parsed_request(bytes: Seq<u8>, max_headers: nat) -> Result<
    RequestLineView,
    Seq<char>,
>;

/// Runs `httparse::Request::parse` on `bytes`, with a header table of
/// `max_headers` empty entries.
///
/// Trusted: the answer is the parser's, which depends on the bytes and the
/// size of the table alone. On success (complete or partial) it carries the
/// request's `method` and `path` fields as the parser left them; on failure,
/// the parser's error as `Display` prints it. The bound on `max_headers` keeps
/// the table's allocation within what a vector can hold.
#[verifier::external_body]
fn parse_request(bytes: &[u8], max_headers: usize) -> (parsed: Result<RequestLine, String>)
    requires
        max_headers <= u16::MAX,
    ensures
        parse_view(parsed) == parsed_request(bytes@, max_headers as nat),
{
    let mut headers = vec![httparse::EMPTY_HEADER; max_headers];
    let mut request = httparse::Request::new(&mut headers);
    match request.parse(bytes) {
        Ok(_) => Ok(
            RequestLine {
                method: request.method.map(String::from),
                path: request.path.map(String::from),
            },
        ),
        Err(error) => Err(error.to_string()),
    }
}

/// What an opening request asks for.
#[derive(Clone, Debug, PartialEq, Eq)]
pub enum Opening {
    /// A tunnel to this authority, `host:port`.
    Tunnel(String),
    /// A plain exchange with the server of this absolute URL.
    Absolute(String),
}

/// The mathematical content of an [`Opening`].
pub enum OpeningView {
    Tunnel(Seq<char>),
    Absolute(Seq<char>),
}

impl View for Opening {
    type V = OpeningView;

    open spec fn view(&self) -> OpeningView {
        match self {
            Opening::Tunnel(authority) => OpeningView::Tunnel(authority@),
            Opening::Absolute(text) => OpeningView::Absolute(text@),
        }
    }
}

/// The mathematical content of a decision on an opening request.
pub open spec fn opening_view(decided: Result<Opening, Ending>) -> Result<OpeningView, EndingView> {
    match decided {
        Ok(opening) => Ok(opening@),
        Err(ending) => Err(ending@),
    }
}

/// The request buffer: what was received, followed by zero bytes up to `cap`.
pub open spec fn padded(received: Seq<u8>, cap: nat) -> Seq<u8> {
    if received.len() < cap {
        received + Seq::new((cap - received.len()) as nat, |i: int| 0u8)
    } else {
        received
    }
}

/// What a parsed request line asks for.
///
/// A parser error ends the connection with that error's text. So does a
/// request whose method or path the parser did not reach. The method
/// `CONNECT` asks for a tunnel to the path; any other method asks for the URL
/// that the path holds. A request line that is complete is classified even
/// where the buffer ended before the headers did.
pub open spec fn classified(parsed: Result<RequestLineView, Seq<char>>) -> Result<
    OpeningView,
    EndingView,
> {
    match parsed {
        Err(detail) => Err(EndingView::Protocol(detail)),
        Ok(line) => match line.method {
            None => Err(EndingView::Protocol("Unable to get request method"@)),
            Some(method) => match line.path {
                None => Err(EndingView::Protocol("Unable to get request path"@)),
                Some(path) => if method == "CONNECT"@ {
                    Ok(OpeningView::Tunnel(path))
                } else {
                    Ok(OpeningView::Absolute(path))
                },
            },
        },
    }
}

/// What the opening request `received` asks for: the request buffer is
/// parsed with room for [`MAX_HEADERS`] headers, and the result classified.
pub open spec fn opening_of(received: Seq<u8>) -> Result<OpeningView, EndingView> {
    classified(parsed_request(padded(received, REQUEST_CAP as nat), MAX_HEADERS as nat))
}

/// Copies `received` and fills it up with zero bytes to `cap`.
pub fn pad(received: &[u8], cap: usize) -> (buffer: Vec<u8>)
    ensures
        buffer@ == padded(received@, cap as nat),
{
    let mut buffer: Vec<u8> = Vec::new();
    let mut i: usize = 0;
    while i < received.len()
        invariant
            i <= received.len(),
            buffer@ =~= received@.take(i as int),
        decreases received.len() - i,
    {
        buffer.push(received[i]);
        i += 1;
    }
    assert(buffer@ =~= received@);
    while i < cap
        invariant
            received.len() <= i,
            received.len() < cap ==> i <= cap,
            received.len() >= cap ==> i == received.len(),
            buffer@ =~= received@ + Seq::new((i - received.len()) as nat, |k: int| 0u8),
        decreases cap - i,
    {
        buffer.push(0u8);
        i += 1;
    }
    assert(buffer@ =~= padded(received@, cap as nat));
    buffer
}

/// Decides what a parsed request line asks for.
pub fn classify(parsed: Result<RequestLine, String>) -> (decided: Result<Opening, Ending>)
    ensures
        opening_view(decided) == classified(parse_view(parsed)),
{
    match parsed {
        Err(detail) => Err(Ending::Protocol(detail)),
        Ok(line) => match line.method {
            None => Err(Ending::Protocol(String::from_str("Unable to get request method"))),
            Some(method) => match line.path {
                None => Err(Ending::Protocol(String::from_str("Unable to get request path"))),
                Some(path) => if method == String::from_str("CONNECT") {
                    Ok(Opening::Tunnel(path))
                } else {
                    Ok(Opening::Absolute(path))
                },
            },
        },
    }
}

/// Parses the opening request `received` and decides what it asks for.
pub fn read_opening(received: &[u8]) -> (decided: Result<Opening, Ending>)
    ensures
        opening_view(decided) == opening_of(received@),
{
    let buffer = pad(received, REQUEST_CAP);
    classify(parse_request(buffer.as_slice(), MAX_HEADERS))
}

} // verus!
