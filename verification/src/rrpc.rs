//! The RPC server (`rrpc`): HTTP requests mapped to local commands by verb
//! and path, and the HTTP response that carries a command's output.
use vstd::prelude::*;
use vstd::utf8::*;
use crate::http::{HttpVerb, RequestError, RequestLine, parse_request_line, lossy_text, utf8_lossy, read_request_line};
use crate::mgmt::strs;
use crate::numbers::{decimal, u64_to_string};
use crate::rrhttp::split_target;
use crate::text::{owned, concat2, concat3, find_char, slice_chars, string_of, str_eq};

verus! {

/// A request to the RPC server; a body is kept only for `POST`.
#[derive(Debug)]
pub struct Request {
    pub verb: HttpVerb,
    pub uri: String,
    pub body: Option<String>,
}

impl Request {
    /// Reads a request.  The path drops any query string; a body that
    /// follows a `GET` is ignored.
    pub fn new(blob: &[u8]) -> (r: Result<Request, RequestError>)
        requires
            blob@.len() >= 3,
        ensures
            match read_request_line(blob@) {
                Err((kind, word)) => r matches Err(e) && e.kind == kind && e.detail@ == word,
                Ok((verb, target, start)) => r matches Ok(req) && req.verb == verb && req.uri@
                    == split_target(target).0 && (if start < blob@.len() && verb
                    == HttpVerb::Post {
                    req.body matches Some(b) && b@ == utf8_lossy(
                        blob@.subrange(start, blob@.len() as int),
                    )
                } else {
                    req.body is None
                }),
            },
    {
        let line: RequestLine = parse_request_line(blob)?;
        let t = line.target.as_slice();
        let uri = match find_char(t, '?') {
            Some(sep) => string_of(slice_chars(t, 0, sep).as_slice()),
            None => string_of(t),
        };
        let body = if line.body_start < blob.len() {
            if line.verb != HttpVerb::Post {
                None
            } else {
                Some(lossy_text(vstd::slice::slice_subrange(blob, line.body_start, blob.len())))
            }
        } else {
            None
        };
        Ok(Request { verb: line.verb, uri, body })
    }
}

/// A request mapped to a command: program and arguments.
#[derive(Debug, PartialEq, Eq)]
pub struct RequestRule {
    pub verb: HttpVerb,
    pub uri: String,
    pub command: Vec<String>,
}

pub open spec fn run_args_spec(rule: RequestRule, req: Request) -> Seq<Seq<char>> {
    let rest = strs(rule.command@).subrange(1, rule.command@.len() as int);
    if req.verb == HttpVerb::Post && req.body is Some {
        rest.push(req.body->0@)
    } else {
        rest
    }
}

impl RequestRule {
    /// Arguments of the command that serves `req`: those of the rule, then
    /// the body of a `POST`.
    pub fn run_args(&self, req: &Request) -> (v: Vec<String>)
        requires
            self.command@.len() >= 1,
        ensures
            strs(v@) == run_args_spec(*self, *req),
    {
        let mut v: Vec<String> = Vec::new();
        let mut i: usize = 1;
        while i < self.command.len()
            invariant
                1 <= i <= self.command@.len(),
                v@.len() == i - 1,
                forall|j: int| 0 <= j < i - 1 ==> #[trigger] v@[j]@ == self.command@[j + 1]@,
            decreases self.command@.len() - i,
        {
            v.push(self.command[i].clone());
            i = i + 1;
        }
        assert(strs(v@) =~= strs(self.command@).subrange(1, self.command@.len() as int));
        if req.verb == HttpVerb::Post {
            if let Some(b) = &req.body {
                v.push(b.clone());
                assert(strs(v@) =~= run_args_spec(*self, *req));
            }
        }
        v
    }
}

/// RPC configuration: the rules.
#[derive(Debug)]
pub struct Config {
    pub rules: Vec<RequestRule>,
}

pub open spec fn rule_for(rule: RequestRule, req: Request) -> bool {
    rule.verb == req.verb && rule.uri@ == req.uri@
}

impl Config {
    pub fn new() -> (c: Self)
        ensures
            c.rules@.len() == 0,
    {
        Config { rules: Vec::new() }
    }

    /// Every rule has a command; the first one without is reported, as
    /// `"VERB URI has empty command"`.
    pub fn check_rules(&self) -> (r: Result<(), String>)
        ensures
            r is Ok <==> forall|i: int| 0 <= i < self.rules@.len() ==> (#[trigger] self.rules@[i]).command@.len() > 0,
            r matches Err(m) ==> exists|i: int|
                0 <= i < self.rules@.len() && (#[trigger] self.rules@[i]).command@.len() == 0 && m@
                    == self.rules@[i].verb.spec_name() + " "@ + self.rules@[i].uri@
                    + " has empty command"@ && forall|j: int|
                    0 <= j < i ==> self.rules@[j].command@.len() > 0,
    {
        let mut i: usize = 0;
        while i < self.rules.len()
            invariant
                i <= self.rules@.len(),
                forall|j: int| 0 <= j < i ==> (#[trigger] self.rules@[j]).command@.len() > 0,
            decreases self.rules@.len() - i,
        {
            let rule = &self.rules[i];
            if rule.command.len() == 0 {
                let mut m = concat3(rule.verb.name(), " ", rule.uri.as_str());
                m.append(" has empty command");
                return Err(m);
            }
            i = i + 1;
        }
        Ok(())
    }

    /// The first rule for the request's verb and path.
    pub fn find_rule(&self, req: &Request) -> (r: Option<&RequestRule>)
        ensures
            match r {
                Some(rule) => exists|i: int|
                    0 <= i < self.rules@.len() && self.rules@[i] == *rule && rule_for(*rule, *req)
                        && forall|j: int| 0 <= j < i ==> !rule_for(self.rules@[j], *req),
                None => forall|i: int| 0 <= i < self.rules@.len() ==> !rule_for(self.rules@[i], *req),
            },
    {
        let mut i: usize = 0;
        while i < self.rules.len()
            invariant
                i <= self.rules@.len(),
                forall|j: int| 0 <= j < i ==> !rule_for(self.rules@[j], *req),
            decreases self.rules@.len() - i,
        {
            let rule = &self.rules[i];
            if rule.verb == req.verb && str_eq(rule.uri.as_str(), req.uri.as_str()) {
                return Some(rule);
            }
            i = i + 1;
        }
        None
    }
}

/// The response that carries a command's output; the length is in bytes.
pub open spec fn wrap_spec(out: Seq<char>) -> Seq<char> {
    let n = encode_utf8(out).len();
    if n > 0 {
        "HTTP/1.1 200 OK\r\nContent-Type: text/plain\r\nContent-Length: "@ + decimal(n) + "\r\n\r\n"@
            + out
    } else {
        "HTTP/1.1 200 OK\r\n\r\n"@
    }
}

pub fn wrap_output(out: &str) -> (s: String)
    ensures
        s@ == wrap_spec(out@),
{
    let bytes = out.as_bytes();
    let content_length = bytes.len();
    if content_length > 0 {
        let n = u64_to_string(content_length as u64);
        let mut s = concat2(
            "HTTP/1.1 200 OK\r\nContent-Type: text/plain\r\nContent-Length: ",
            n.as_str(),
        );
        s.append("\r\n\r\n");
        s.append(out);
        s
    } else {
        owned("HTTP/1.1 200 OK\r\n\r\n")
    }
}

} // verus!
