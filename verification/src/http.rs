//! The request line of an HTTP/1.1 request, as the filtering proxy and the
//! RPC server read it: the head ends at the first blank line, and the first
//! line holds a verb, a target and the protocol.
use vstd::prelude::*;
use vstd::utf8::*;
use crate::text::{chars_of, split_whitespace, string_of, word_is, words};

verus! {

#[derive(Debug, Clone, Copy, PartialEq, Eq, Structural)]
pub enum HttpVerb {
    Get,
    Post,
}

impl HttpVerb {
    pub open spec fn spec_name(&self) -> Seq<char> {
        match self {
            HttpVerb::Get => "GET"@,
            HttpVerb::Post => "POST"@,
        }
    }

    /// The verb as written in a request (`GET`, `POST`).
    pub fn name(&self) -> (s: &'static str)
        ensures
            s@ == self.spec_name(),
    {
        match self {
            HttpVerb::Get => "GET",
            HttpVerb::Post => "POST",
        }
    }
}

/// The verb that a request-line word names.
pub open spec fn verb_named(w: Seq<char>) -> Option<HttpVerb> {
    if w == "GET"@ {
        Some(HttpVerb::Get)
    } else if w == "POST"@ {
        Some(HttpVerb::Post)
    } else {
        None
    }
}

#[derive(Debug, Clone, Copy, PartialEq, Eq, Structural)]
pub enum RequestErrorKind {
    NotWellFormed,
    UnsupportedVerb,
    TooManyWords,
    UnexpectedProtocol,
    NoVerb,
    NoUri,
    NoProtocol,
    BodyNotJson,
}

/// Why a request was not accepted; `detail` holds the offending word, or the
/// JSON parser's message.
#[derive(Debug, Clone)]
pub struct RequestError {
    pub kind: RequestErrorKind,
    pub detail: String,
}

impl RequestError {
    pub fn new(kind: RequestErrorKind, detail: String) -> (e: Self)
        ensures
            e.kind == kind,
            e.detail == detail,
    {
        RequestError { kind, detail }
    }

    pub open spec fn spec_message(&self) -> Seq<char> {
        match self.kind {
            RequestErrorKind::NotWellFormed => "request not well formed"@,
            RequestErrorKind::UnsupportedVerb => "unsupported verb "@ + self.detail@,
            RequestErrorKind::TooManyWords => "too many words on first line"@,
            RequestErrorKind::UnexpectedProtocol => "unexpected protocol specifier "@
                + self.detail@,
            RequestErrorKind::NoVerb => "no request verb"@,
            RequestErrorKind::NoUri => "no request URI"@,
            RequestErrorKind::NoProtocol => "no valid protocol string"@,
            RequestErrorKind::BodyNotJson => "error parsing body as JSON: "@ + self.detail@,
        }
    }

    /// The text that the filter logs for this error.
    pub fn message(&self) -> (s: String)
        ensures
            s@ == self.spec_message(),
    {
        match self.kind {
            RequestErrorKind::NotWellFormed => crate::text::owned("request not well formed"),
            RequestErrorKind::UnsupportedVerb => crate::text::concat2(
                "unsupported verb ",
                self.detail.as_str(),
            ),
            RequestErrorKind::TooManyWords => crate::text::owned("too many words on first line"),
            RequestErrorKind::UnexpectedProtocol => crate::text::concat2(
                "unexpected protocol specifier ",
                self.detail.as_str(),
            ),
            RequestErrorKind::NoVerb => crate::text::owned("no request verb"),
            RequestErrorKind::NoUri => crate::text::owned("no request URI"),
            RequestErrorKind::NoProtocol => crate::text::owned("no valid protocol string"),
            RequestErrorKind::BodyNotJson => crate::text::concat2(
                "error parsing body as JSON: ",
                self.detail.as_str(),
            ),
        }
    }
}

/// What `String::from_utf8_lossy` gives for these bytes.
pub uninterp spec fn utf8_lossy(bytes: Seq<u8>) -> Seq<char>;

/// Wraps `String::from_utf8_lossy`.  Claimed: the result is the lossy
/// decoding of the bytes, a function of them alone, and for valid UTF-8 it
/// is the plain decoding (the function borrows the input then).
#[verifier::external_body]
pub(crate) fn lossy_text(bytes: &[u8]) -> (s: String)
    ensures
        s@ == utf8_lossy(bytes@),
        valid_utf8(bytes@) ==> s@ == decode_utf8(bytes@),
{
    String::from_utf8_lossy(bytes).to_string()
}

/// A line break (`\r\n`) starts at `k`.
pub open spec fn crlf_at(b: Seq<u8>, k: int) -> bool {
    0 <= k && k + 1 < b.len() && b[k] == 0x0d && b[k + 1] == 0x0a
}

/// A blank line (`\r\n\r\n`) starts at `k`.
pub open spec fn blank_at(b: Seq<u8>, k: int) -> bool {
    crlf_at(b, k) && crlf_at(b, k + 2)
}

/// The places that the scan for the end of the head looks at.
pub open spec fn scanned(b: Seq<u8>, k: int) -> bool {
    1 <= k < b.len() - 3
}

/// `k` is the first scanned place where a blank line starts.
pub open spec fn first_blank(b: Seq<u8>, k: int) -> bool {
    scanned(b, k) && blank_at(b, k) && forall|j: int| scanned(b, j) && j < k ==> !blank_at(b, j)
}

/// `k` is the first scanned place where a line break starts.
pub open spec fn first_crlf(b: Seq<u8>, k: int) -> bool {
    scanned(b, k) && crlf_at(b, k) && forall|j: int| scanned(b, j) && j < k ==> !crlf_at(b, j)
}

/// End of the request line and start of the body, when the head is complete.
pub open spec fn framing(b: Seq<u8>) -> Option<(int, int)> {
    if exists|k: int| first_blank(b, k) {
        let k = choose|k: int| first_blank(b, k);
        let e = choose|e: int| first_crlf(b, e);
        Some((e, k + 4))
    } else {
        None
    }
}

/// The words of the request line.
pub open spec fn line_words(b: Seq<u8>, line_end: int) -> Seq<Seq<char>> {
    words(utf8_lossy(b.subrange(0, line_end)))
}

/// The request line read from its words: the verb and the target, or the
/// kind of error and the word that caused it.
pub open spec fn read_line(ws: Seq<Seq<char>>) -> Result<
    (HttpVerb, Seq<char>),
    (RequestErrorKind, Seq<char>),
> {
    if ws.len() == 0 {
        Err((RequestErrorKind::NoVerb, seq![]))
    } else if verb_named(ws[0]) is None {
        Err((RequestErrorKind::UnsupportedVerb, ws[0]))
    } else if ws.len() == 1 {
        Err((RequestErrorKind::NoUri, seq![]))
    } else if ws.len() == 2 {
        Err((RequestErrorKind::NoProtocol, seq![]))
    } else if ws[2] != "HTTP/1.1"@ {
        Err((RequestErrorKind::UnexpectedProtocol, ws[2]))
    } else if ws.len() > 3 {
        Err((RequestErrorKind::TooManyWords, seq![]))
    } else {
        Ok((verb_named(ws[0])->0, ws[1]))
    }
}

/// What is read of the request bytes `b`: verb, target, and where the body
/// starts; or the kind of error and the word that caused it.
pub open spec fn read_request_line(b: Seq<u8>) -> Result<
    (HttpVerb, Seq<char>, int),
    (RequestErrorKind, Seq<char>),
> {
    match framing(b) {
        None => Err((RequestErrorKind::NotWellFormed, seq![])),
        Some((e, start)) => match read_line(line_words(b, e)) {
            Ok((verb, target)) => Ok((verb, target, start)),
            Err(err) => Err(err),
        },
    }
}

/// The parts of a request line.
#[derive(Debug, Clone)]
pub struct RequestLine {
    pub verb: HttpVerb,
    /// The second word: the path and, after a `?`, the query string.
    pub target: Vec<char>,
    /// Index in the request bytes where the body starts.
    pub body_start: usize,
}

/// Locates the end of the request line and the start of the body.
fn frame(blob: &[u8]) -> (r: Option<(usize, usize)>)
    requires
        blob@.len() >= 3,
    ensures
        r is None <==> framing(blob@) is None,
        r matches Some((e, s)) ==> framing(blob@) == Some((e as int, s as int)) && first_crlf(
            blob@,
            e as int,
        ) && e < s <= blob@.len(),
{
    let n = blob.len();
    let mut line_end: usize = 0;
    let mut k: usize = 1;
    while k < n - 3
        invariant
            n == blob@.len() >= 3,
            1 <= k,
            k <= n - 3 || n - 3 < 1,
            forall|j: int| scanned(blob@, j) && j < k ==> !blank_at(blob@, j),
            line_end == 0 ==> forall|j: int| scanned(blob@, j) && j < k ==> !crlf_at(blob@, j),
            line_end != 0 ==> first_crlf(blob@, line_end as int),
        decreases n - k,
    {
        if blob[k] == 0x0d && blob[k + 1] == 0x0a {
            if line_end == 0 {
                line_end = k;
            }
            if blob[k + 2] == 0x0d && blob[k + 3] == 0x0a {
                proof {
                    assert(first_blank(blob@, k as int));
                    assert(first_crlf(blob@, line_end as int));
                    let kk = choose|kk: int| first_blank(blob@, kk);
                    let e = choose|e: int| first_crlf(blob@, e);
                    assert(kk == k);
                    assert(e == line_end);
                }
                return Some((line_end, k + 4));
            }
        }
        k = k + 1;
    }
    proof {
        if exists|kk: int| first_blank(blob@, kk) {
            let kk = choose|kk: int| first_blank(blob@, kk);
            assert(!blank_at(blob@, kk));
        }
    }
    None
}

/// Reads the request line of an HTTP request held in `blob`.
pub fn parse_request_line(blob: &[u8]) -> (r: Result<RequestLine, RequestError>)
    requires
        blob@.len() >= 3,
    ensures
        match read_request_line(blob@) {
            Ok((verb, target, start)) => r matches Ok(line) && line.verb == verb && line.target@
                == target && line.body_start == start,
            Err((kind, word)) => r matches Err(e) && e.kind == kind && e.detail@ == word,
        },
{
    let (line_end, body_start) = match frame(blob) {
        Some(f) => f,
        None => {
            return Err(RequestError::new(RequestErrorKind::NotWellFormed, String::new()));
        },
    };
    let head = vstd::slice::slice_subrange(blob, 0, line_end);
    let text = lossy_text(head);
    let chars = chars_of(text.as_str());
    let ws = split_whitespace(chars.as_slice());
    proof {
        assert(head@ == blob@.subrange(0, line_end as int));
    }
    let ghost spec_ws = line_words(blob@, line_end as int);
    if ws.len() == 0 {
        return Err(RequestError::new(RequestErrorKind::NoVerb, String::new()));
    }
    let verb = if word_is(ws[0].as_slice(), "GET") {
        HttpVerb::Get
    } else if word_is(ws[0].as_slice(), "POST") {
        HttpVerb::Post
    } else {
        return Err(RequestError::new(RequestErrorKind::UnsupportedVerb, string_of(ws[0].as_slice())));
    };
    if ws.len() == 1 {
        return Err(RequestError::new(RequestErrorKind::NoUri, String::new()));
    }
    if ws.len() == 2 {
        return Err(RequestError::new(RequestErrorKind::NoProtocol, String::new()));
    }
    if !word_is(ws[2].as_slice(), "HTTP/1.1") {
        return Err(
            RequestError::new(RequestErrorKind::UnexpectedProtocol, string_of(ws[2].as_slice())),
        );
    }
    if ws.len() > 3 {
        return Err(RequestError::new(RequestErrorKind::TooManyWords, String::new()));
    }
    let target = ws[1].clone();
    assert(target@ =~= ws[1]@);
    proof {
        assert(ws@[0]@ == spec_ws[0]);
        assert(ws@[1]@ == spec_ws[1]);
        assert(ws@[2]@ == spec_ws[2]);
        assert(spec_ws.len() == 3);
        assert(verb_named(spec_ws[0]) == Some(verb));
        assert(read_line(spec_ws) == Ok::<(HttpVerb, Seq<char>), (RequestErrorKind, Seq<char>)>((verb, spec_ws[1])));
        assert(framing(blob@) == Some((line_end as int, body_start as int)));
    }
    Ok(RequestLine { verb, target, body_start })
}

} // verus!
