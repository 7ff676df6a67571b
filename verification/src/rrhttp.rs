//! The HTTP filter (`rrhttp`): which requests a proxied service accepts,
//! following a list of rules with value schemas.
use vstd::prelude::*;
use crate::http::{HttpVerb, RequestError, RequestErrorKind, RequestLine, parse_request_line, lossy_text, utf8_lossy, read_request_line};
use crate::json::{JsonValue, member};
use crate::numbers::{parse_i16, parse_int_spec, i64_to_string, signed_decimal};
use crate::strmap::StrMap;
use crate::text::{chars_of, find_char, first_index, pieces, slice_chars, split_on, string_of, word_is};

verus! {

#[derive(Debug, Clone, Copy, PartialEq, Eq, Structural)]
pub enum ValueType {
    Bool,
    Float,
    Int,
}

/// Schema entry for one named value of a request.
#[derive(Debug)]
pub struct ValueRule {
    pub optional: bool,
    pub name: String,
    pub value_type: ValueType,
    pub range: Option<(i16, i16)>,
}

#[derive(Debug)]
pub struct RequestRule {
    pub verb: HttpVerb,
    pub uri: String,
    /// `Some(true)`: the request must have query parameters; `Some(false)`:
    /// it must have none; `None`: either.
    pub has_params: Option<bool>,
    /// Same reading as `has_params`, for a body.
    pub has_body: Option<bool>,
    pub schema: Option<Vec<ValueRule>>,
}

#[derive(Debug, Clone, Copy, PartialEq, Eq, Structural)]
pub enum ConfigMode {
    Block,
    Allow,
}

/// Filter configuration: rules, and what happens to requests that no rule
/// names.
#[derive(Debug)]
pub struct Config {
    pub default: ConfigMode,
    pub rules: Vec<RequestRule>,
}

/// A query value read as an `f32` (`str::parse::<f32>`): not a number at all,
/// NaN, or a value given by its floor and ceiling saturated to `i64`
/// (infinities saturate).
#[derive(Debug, Clone, Copy, PartialEq, Eq, Structural)]
pub enum FloatReading {
    Invalid,
    NotANumber,
    Value { floor: i64, ceil: i64 },
}

/// A request, with its query parameters (name to optional value) and its body.
#[derive(Debug)]
pub struct Request {
    pub verb: HttpVerb,
    pub uri: String,
    pub body: Option<JsonValue>,
    pub query: Option<StrMap<Option<String>>>,
}

/// The head of a request: what can be read without parsing the body.
#[derive(Debug)]
pub struct RequestHead {
    pub verb: HttpVerb,
    pub uri: String,
    pub query: Option<StrMap<Option<String>>>,
    /// The body as text (lossy UTF-8), when there are bytes after the head.
    pub body_text: Option<String>,
}

pub open spec fn opt_view(o: Option<String>) -> Option<Seq<char>> {
    match o {
        Some(s) => Some(s@),
        None => None,
    }
}

/// Name and value of one `name=value` fragment of a query string.
pub open spec fn fragment(p: Seq<char>) -> (Seq<char>, Option<Seq<char>>) {
    match first_index(p, '=') {
        Some(i) => (p.subrange(0, i), Some(p.subrange(i + 1, p.len() as int))),
        None => (p, None),
    }
}

/// The parameters of the fragments `ps`; a later fragment overrides an
/// earlier one with the same name.
pub open spec fn query_of(ps: Seq<Seq<char>>) -> Map<Seq<char>, Option<Seq<char>>>
    decreases ps.len(),
{
    if ps.len() == 0 {
        Map::empty()
    } else {
        let (k, v) = fragment(ps.last());
        query_of(ps.drop_last()).insert(k, v)
    }
}

/// The parameters of a query string (the part after `?`).
pub open spec fn query_spec(qs: Seq<char>) -> Map<Seq<char>, Option<Seq<char>>> {
    query_of(pieces(qs, '&'))
}

/// A query map, read through the views of its values.
pub open spec fn query_view(q: StrMap<Option<String>>) -> Map<Seq<char>, Option<Seq<char>>> {
    q.view().map_values(|v: Option<String>| opt_view(v))
}

/// Splits a query string into its parameters.
pub fn parse_query_string(qs: &[char]) -> (q: StrMap<Option<String>>)
    ensures
        q.wf(),
        query_view(q) == query_spec(qs@),
{
    let frags = split_on(qs, '&');
    let ghost ps = pieces(qs@, '&');
    let mut q: StrMap<Option<String>> = StrMap::new();
    let mut i: usize = 0;
    while i < frags.len()
        invariant
            q.wf(),
            i <= frags@.len(),
            frags@.len() == ps.len(),
            forall|j: int| 0 <= j < frags@.len() ==> #[trigger] frags@[j]@ == ps[j],
            query_view(q) == query_of(ps.subrange(0, i as int)),
        decreases frags@.len() - i,
    {
        let frag = &frags[i];
        let ghost p = ps[i as int];
        assert(frag@ == p);
        match find_char(frag.as_slice(), '=') {
            Some(sep) => {
                let k = string_of(slice_chars(frag.as_slice(), 0, sep).as_slice());
                let v = string_of(slice_chars(frag.as_slice(), sep + 1, frag.len()).as_slice());
                let ghost kv = k@;
                let ghost vv = v@;
                q.insert(k, Some(v));
                proof {
                    assert(fragment(p) == (kv, Some(vv)));
                }
            },
            None => {
                let k = string_of(frag.as_slice());
                q.insert(k, None);
            },
        }
        proof {
            assert(ps.subrange(0, i + 1).drop_last() =~= ps.subrange(0, i as int));
            assert(ps.subrange(0, i + 1).last() == p);
            assert(query_view(q) =~= query_of(ps.subrange(0, i + 1)));
        }
        i = i + 1;
    }
    proof {
        assert(ps.subrange(0, ps.len() as int) =~= ps);
    }
    q
}

/// Path and query string of a request target (split at the first `?`).
pub open spec fn split_target(t: Seq<char>) -> (Seq<char>, Option<Seq<char>>) {
    match first_index(t, '?') {
        Some(i) => (t.subrange(0, i), Some(t.subrange(i + 1, t.len() as int))),
        None => (t, None),
    }
}

/// Whether a float reading lies within an optional inclusive range; a value
/// that is not a number at all fails, NaN passes (every comparison with it
/// is false).
pub open spec fn float_ok(r: FloatReading, range: Option<(i16, i16)>) -> bool {
    match r {
        FloatReading::Invalid => false,
        FloatReading::NotANumber => true,
        FloatReading::Value { floor, ceil } => match range {
            None => true,
            Some((lo, hi)) => !(floor < lo || ceil > hi),
        },
    }
}

/// Whether an integer lies within an optional inclusive range.
pub open spec fn int_ok(n: int, range: Option<(i16, i16)>) -> bool {
    match range {
        None => true,
        Some((lo, hi)) => !(n < lo || n > hi),
    }
}

/// Whether query parameters `q` satisfy one schema entry; `floats` gives the
/// float reading of each value text.
pub open spec fn query_value_ok(
    vr: ValueRule,
    q: Map<Seq<char>, Option<Seq<char>>>,
    floats: Map<Seq<char>, FloatReading>,
) -> bool {
    if !q.dom().contains(vr.name@) {
        vr.optional
    } else {
        match q[vr.name@] {
            None => false,
            Some(v) => match vr.value_type {
                ValueType::Bool => v == "true"@ || v == "false"@,
                ValueType::Float => float_ok(floats[v], vr.range),
                ValueType::Int => match parse_int_spec(v, true, i16::MIN as int, i16::MAX as int) {
                    Ok(n) => int_ok(n, vr.range),
                    Err(_) => false,
                },
            },
        }
    }
}

/// Whether a body satisfies one schema entry.  The `Bool` case is written
/// as the filter decides it, though it reads as a slip there: a boolean
/// value fails a `Bool` entry and any other value passes it (the test is
/// inverted).  No test of the filter covers this case.
pub open spec fn body_value_ok(vr: ValueRule, body: JsonValue) -> bool {
    match member(body, vr.name@) {
        None => vr.optional,
        Some(v) => match vr.value_type {
            ValueType::Bool => !(v is Bool),
            ValueType::Float => match v {
                JsonValue::Number(n) => !(match vr.range {
                    None => false,
                    Some((lo, hi)) => n.floor < lo || n.ceil > hi,
                }),
                _ => false,
            },
            ValueType::Int => match v {
                JsonValue::Number(n) => match n.int {
                    Some(i) => int_ok(i as int, vr.range),
                    None => false,
                },
                _ => false,
            },
        },
    }
}

/// Whether a request satisfies a rule.
pub open spec fn satisfies_spec(
    req: Request,
    rule: RequestRule,
    floats: Map<Seq<char>, FloatReading>,
) -> bool {
    &&& req.verb == rule.verb
    &&& req.uri@ == rule.uri@
    &&& (rule.has_params matches Some(p) ==> p == req.query is Some)
    &&& (rule.has_body matches Some(b) ==> b == req.body is Some)
    &&& match rule.schema {
        None => true,
        Some(schema) => if rule.verb == HttpVerb::Get {
            match req.query {
                None => true,
                Some(q) => forall|i: int|
                    0 <= i < schema@.len() ==> query_value_ok(
                        #[trigger] schema@[i],
                        query_view(q),
                        floats,
                    ),
            }
        } else {
            match req.body {
                None => true,
                Some(b) => forall|i: int|
                    0 <= i < schema@.len() ==> body_value_ok(#[trigger] schema@[i], b),
            }
        },
    }
}

/// Every value of the query has a float reading in `floats`.
pub open spec fn readings_cover(req: Request, floats: Map<Seq<char>, FloatReading>) -> bool {
    req.query matches Some(q) ==> forall|k: Seq<char>|
        #![trigger query_view(q)[k]]
        query_view(q).dom().contains(k) && query_view(q)[k] is Some ==> floats.dom().contains(
            query_view(q)[k]->0,
        )
}

/// The first rule with the request's verb and path.
pub open spec fn first_rule(rules: Seq<RequestRule>, verb: HttpVerb, uri: Seq<char>) -> Option<int> {
    if exists|i: int| 0 <= i < rules.len() && rules[i].verb == verb && rules[i].uri@ == uri {
        Some(
            choose|i: int|
                0 <= i < rules.len() && rules[i].verb == verb && rules[i].uri@ == uri && forall|j: int|
                    0 <= j < i ==> !(rules[j].verb == verb && rules[j].uri@ == uri),
        )
    } else {
        None
    }
}

/// Whether the filter lets a request through: the first rule for its verb
/// and path decides; without one, the default mode does.
pub open spec fn is_valid_spec(
    config: Config,
    req: Request,
    floats: Map<Seq<char>, FloatReading>,
) -> bool {
    match first_rule(config.rules@, req.verb, req.uri@) {
        Some(i) => satisfies_spec(req, config.rules@[i], floats),
        None => config.default == ConfigMode::Allow,
    }
}

fn float_check(r: FloatReading, range: Option<(i16, i16)>) -> (b: bool)
    ensures
        b == float_ok(r, range),
{
    match r {
        FloatReading::Invalid => false,
        FloatReading::NotANumber => true,
        FloatReading::Value { floor, ceil } => match range {
            None => true,
            Some((lo, hi)) => !(floor < lo as i64 || ceil > hi as i64),
        },
    }
}

fn int_check(n: i64, range: Option<(i16, i16)>) -> (b: bool)
    ensures
        b == int_ok(n as int, range),
{
    match range {
        None => true,
        Some((lo, hi)) => !(n < lo as i64 || n > hi as i64),
    }
}

fn query_check(vr: &ValueRule, q: &StrMap<Option<String>>, floats: &StrMap<FloatReading>) -> (b: bool)
    requires
        q.wf(),
        floats.wf(),
        forall|k: Seq<char>|
            #![trigger query_view(*q)[k]]
            query_view(*q).dom().contains(k) && query_view(*q)[k] is Some ==> floats.view().dom().contains(
                query_view(*q)[k]->0,
            ),
    ensures
        b == query_value_ok(*vr, query_view(*q), floats.view()),
{
    let ghost key = vr.name@;
    assert(query_view(*q).dom() =~= q.view().dom());
    match q.get(vr.name.as_str()) {
        None => vr.optional,
        Some(v_option) => match v_option {
            None => {
                assert(query_view(*q)[key] == opt_view(q.view()[key]));
                false
            },
            Some(v) => {
                assert(query_view(*q)[key] == opt_view(q.view()[key]));
                assert(query_view(*q)[key] is Some);
                assert(floats.view().dom().contains(v@));
                let chars = chars_of(v.as_str());
                match vr.value_type {
                    ValueType::Bool => word_is(chars.as_slice(), "true") || word_is(
                        chars.as_slice(),
                        "false",
                    ),
                    ValueType::Float => match floats.get(v.as_str()) {
                        Some(r) => float_check(*r, vr.range),
                        None => false,
                    },
                    ValueType::Int => match parse_i16(chars.as_slice()) {
                        Ok(n) => int_check(n as i64, vr.range),
                        Err(_) => false,
                    },
                }
            },
        },
    }
}

fn body_check(vr: &ValueRule, body: &JsonValue) -> (b: bool)
    ensures
        b == body_value_ok(*vr, *body),
{
    match body.get(vr.name.as_str()) {
        None => vr.optional,
        Some(v) => match vr.value_type {
            ValueType::Bool => match v {
                JsonValue::Bool(_) => false,
                _ => true,
            },
            ValueType::Float => match v {
                JsonValue::Number(n) => match vr.range {
                    None => true,
                    Some((lo, hi)) => !(n.floor < lo as i64 || n.ceil > hi as i64),
                },
                _ => false,
            },
            ValueType::Int => match v {
                JsonValue::Number(n) => match n.int {
                    Some(i) => int_check(i, vr.range),
                    None => false,
                },
                _ => false,
            },
        },
    }
}

impl Request {
    /// Reads the head of a request: verb, path, query parameters, and the
    /// body text that follows the blank line.
    pub fn parse_head(blob: &[u8]) -> (r: Result<RequestHead, RequestError>)
        requires
            blob@.len() >= 3,
        ensures
            match read_request_line(blob@) {
                Err((kind, word)) => r matches Err(e) && e.kind == kind && e.detail@ == word,
                Ok((verb, target, start)) => r matches Ok(h) && h.verb == verb && h.uri@
                    == split_target(target).0 && (match split_target(target).1 {
                    None => h.query is None,
                    Some(qs) => h.query matches Some(q) && q.wf() && query_view(q) == query_spec(
                        qs,
                    ),
                }) && (if start < blob@.len() {
                    h.body_text matches Some(b) && b@ == utf8_lossy(
                        blob@.subrange(start, blob@.len() as int),
                    )
                } else {
                    h.body_text is None
                }),
            },
    {
        let line: RequestLine = parse_request_line(blob)?;
        let t = line.target.as_slice();
        let (uri, query) = match find_char(t, '?') {
            Some(sep) => {
                assert(sep < t@.len());
                let path = string_of(slice_chars(t, 0, sep).as_slice());
                let qs = slice_chars(t, sep + 1, t.len());
                (path, Some(parse_query_string(qs.as_slice())))
            },
            None => (string_of(t), None),
        };
        let body_text = if line.body_start < blob.len() {
            Some(lossy_text(vstd::slice::slice_subrange(blob, line.body_start, blob.len())))
        } else {
            None
        };
        Ok(RequestHead { verb: line.verb, uri, query, body_text })
    }

    /// Whether this request satisfies `rule`; `floats` holds the `f32`
    /// reading of every query value.
    #[verifier::loop_isolation(false)]
    pub fn satisfies(&self, rule: &RequestRule, floats: &StrMap<FloatReading>) -> (b: bool)
        requires
            floats.wf(),
            self.query matches Some(q) ==> q.wf(),
            readings_cover(*self, floats.view()),
        ensures
            b == satisfies_spec(*self, *rule, floats.view()),
    {
        if self.verb != rule.verb || !crate::text::str_eq(self.uri.as_str(), rule.uri.as_str()) {
            return false;
        }
        if let Some(has_params) = rule.has_params {
            if has_params != self.query.is_some() {
                return false;
            }
        }
        if let Some(has_body) = rule.has_body {
            if has_body != self.body.is_some() {
                return false;
            }
        }
        match &rule.schema {
            Some(schema) => {
                if rule.verb == HttpVerb::Get {
                    let query = match &self.query {
                        Some(q) => q,
                        None => return true,
                    };
                    let mut i: usize = 0;
                    while i < schema.len()
                        invariant
                            i <= schema@.len(),
                            query.wf(),
                            floats.wf(),
                            forall|k: Seq<char>|
                                #![trigger query_view(*query)[k]]
                                query_view(*query).dom().contains(k) && query_view(*query)[k] is Some
                                    ==> floats.view().dom().contains(query_view(*query)[k]->0),
                            forall|j: int|
                                0 <= j < i ==> query_value_ok(
                                    #[trigger] schema@[j],
                                    query_view(*query),
                                    floats.view(),
                                ),
                        decreases schema@.len() - i,
                    {
                        if !query_check(&schema[i], query, floats) {
                            assert(!query_value_ok(schema@[i as int], query_view(*query), floats.view()));
                            return false;
                        }
                        i = i + 1;
                    }
                } else {
                    let body = match &self.body {
                        Some(b) => b,
                        None => return true,
                    };
                    let mut i: usize = 0;
                    while i < schema.len()
                        invariant
                            i <= schema@.len(),
                            forall|j: int|
                                0 <= j < i ==> body_value_ok(#[trigger] schema@[j], *body),
                        decreases schema@.len() - i,
                    {
                        if !body_check(&schema[i], body) {
                            assert(!body_value_ok(schema@[i as int], *body));
                            return false;
                        }
                        i = i + 1;
                    }
                }
                true
            },
            None => true,
        }
    }
}

/// Why a filter configuration was refused: a schema range whose low end
/// exceeds its high end.
#[derive(Debug, Clone, Copy)]
pub struct ConfigError {
    pub range: (i16, i16),
}

impl ConfigError {
    pub open spec fn spec_message(&self) -> Seq<char> {
        "range in configuration not valid: ("@ + signed_decimal(self.range.0 as int) + ", "@
            + signed_decimal(self.range.1 as int) + ")"@
    }

    /// The text of the error, with the range as `Debug` writes a pair.
    pub fn message(&self) -> (s: String)
        ensures
            s@ == self.spec_message(),
    {
        let lo = i64_to_string(self.range.0 as i64);
        let hi = i64_to_string(self.range.1 as i64);
        let mut s = crate::text::owned("range in configuration not valid: (");
        s.append(lo.as_str());
        s.append(", ");
        s.append(hi.as_str());
        s.append(")");
        s
    }
}

/// An absent range, or one whose low end does not exceed its high end.
pub open spec fn range_ordered(r: Option<(i16, i16)>) -> bool {
    match r {
        Some((lo, hi)) => lo <= hi,
        None => true,
    }
}

/// Whether every range in a rule's schema is ordered.
pub open spec fn rule_ranges_ok(rule: RequestRule) -> bool {
    rule.schema matches Some(schema) ==> forall|i: int|
        0 <= i < schema@.len() ==> range_ordered((#[trigger] schema@[i]).range)
}

impl Config {
    /// Lets everything through, with no rules.
    pub fn new() -> (c: Self)
        ensures
            c.default == ConfigMode::Allow,
            c.rules@.len() == 0,
    {
        Config { default: ConfigMode::Allow, rules: Vec::new() }
    }

    /// Checks the ranges of one rule; the first disordered range is reported.
    #[verifier::loop_isolation(false)]
    pub fn check_rule_spec(rule: &RequestRule) -> (r: Result<(), ConfigError>)
        ensures
            r is Ok <==> rule_ranges_ok(*rule),
            r matches Err(e) ==> e.range.0 > e.range.1,
    {
        if let Some(schema) = &rule.schema {
            let mut i: usize = 0;
            while i < schema.len()
                invariant
                    i <= schema@.len(),
                    forall|j: int| 0 <= j < i ==> range_ordered((#[trigger] schema@[j]).range),
                decreases schema@.len() - i,
            {
                if let Some(range) = schema[i].range {
                    if range.0 > range.1 {
                        assert(!range_ordered(schema@[i as int].range));
                        return Err(ConfigError { range });
                    }
                }
                i = i + 1;
            }
        }
        Ok(())
    }

    /// Checks every rule, in order, as a configuration file is loaded.
    pub fn check_rules(&self) -> (r: Result<(), ConfigError>)
        ensures
            r is Ok <==> forall|i: int| 0 <= i < self.rules@.len() ==> rule_ranges_ok(
                #[trigger] self.rules@[i],
            ),
    {
        let mut i: usize = 0;
        while i < self.rules.len()
            invariant
                i <= self.rules@.len(),
                forall|j: int| 0 <= j < i ==> rule_ranges_ok(#[trigger] self.rules@[j]),
            decreases self.rules@.len() - i,
        {
            Self::check_rule_spec(&self.rules[i])?;
            i = i + 1;
        }
        Ok(())
    }

    /// Whether the filter lets `req` through.
    pub fn is_valid(&self, req: &Request, floats: &StrMap<FloatReading>) -> (b: bool)
        requires
            floats.wf(),
            req.query matches Some(q) ==> q.wf(),
            readings_cover(*req, floats.view()),
        ensures
            b == is_valid_spec(*self, *req, floats.view()),
    {
        let mut i: usize = 0;
        while i < self.rules.len()
            invariant
                i <= self.rules@.len(),
                floats.wf(),
                req.query matches Some(q) ==> q.wf(),
                readings_cover(*req, floats.view()),
                forall|j: int|
                    0 <= j < i ==> !(self.rules@[j].verb == req.verb && self.rules@[j].uri@
                        == req.uri@),
            decreases self.rules@.len() - i,
        {
            let rule = &self.rules[i];
            if req.verb == rule.verb && crate::text::str_eq(req.uri.as_str(), rule.uri.as_str()) {
                proof {
                    let k = first_rule(self.rules@, req.verb, req.uri@)->0;
                    assert(0 <= k < self.rules@.len() && self.rules@[k].verb == req.verb
                        && self.rules@[k].uri@ == req.uri@ && forall|j: int|
                        0 <= j < k ==> !(self.rules@[j].verb == req.verb && self.rules@[j].uri@
                            == req.uri@));
                    assert(k == i);
                }
                return req.satisfies(rule, floats);
            }
            i = i + 1;
        }
        self.default == ConfigMode::Allow
    }
}

/// With no rules, the default mode alone decides.
pub proof fn law_no_rules_default_decides(
    config: Config,
    req: Request,
    floats: Map<Seq<char>, FloatReading>,
)
    requires
        config.rules@.len() == 0,
    ensures
        is_valid_spec(config, req, floats) == (config.default == ConfigMode::Allow),
{
}

/// When a rule names the request's verb and path, the default mode plays no
/// part: the first such rule decides.
pub proof fn law_matching_rule_decides(
    config: Config,
    req: Request,
    floats: Map<Seq<char>, FloatReading>,
    i: int,
)
    requires
        0 <= i < config.rules@.len(),
        config.rules@[i].verb == req.verb,
        config.rules@[i].uri@ == req.uri@,
        forall|j: int|
            0 <= j < i ==> !(config.rules@[j].verb == req.verb && config.rules@[j].uri@ == req.uri@),
    ensures
        is_valid_spec(config, req, floats) == satisfies_spec(req, config.rules@[i], floats),
{
    let k = first_rule(config.rules@, req.verb, req.uri@)->0;
    assert(first_rule(config.rules@, req.verb, req.uri@) is Some);
    if k < i {
        assert(!(config.rules@[k].verb == req.verb && config.rules@[k].uri@ == req.uri@));
    }
    if i < k {
        assert(!(config.rules@[i].verb == req.verb && config.rules@[i].uri@ == req.uri@));
    }
}

/// A request accepted under a rule has the rule's verb and path.
pub proof fn law_satisfies_needs_verb_and_path(
    req: Request,
    rule: RequestRule,
    floats: Map<Seq<char>, FloatReading>,
)
    requires
        satisfies_spec(req, rule, floats),
    ensures
        req.verb == rule.verb,
        req.uri@ == rule.uri@,
{
}

/// A present query value passes a `Bool` entry of a schema exactly when it
/// is the text `true` or the text `false`.
pub proof fn law_bool_query_value(
    vr: ValueRule,
    q: Map<Seq<char>, Option<Seq<char>>>,
    floats: Map<Seq<char>, FloatReading>,
    v: Seq<char>,
)
    requires
        vr.value_type == ValueType::Bool,
        q.dom().contains(vr.name@),
        q[vr.name@] == Some(v),
    ensures
        query_value_ok(vr, q, floats) <==> (v == "true"@ || v == "false"@),
{
}

/// A GET request for a rule whose schema has only `Bool` entries, each
/// named in the query, satisfies the rule exactly when every such value is
/// the text `true` or the text `false`.
pub proof fn law_get_bool_schema(req: Request, rule: RequestRule, floats: Map<Seq<char>, FloatReading>)
    requires
        req.verb == HttpVerb::Get,
        rule.verb == HttpVerb::Get,
        req.uri@ == rule.uri@,
        rule.has_params is None,
        rule.has_body is None,
        rule.schema is Some,
        req.query is Some,
        forall|i: int|
            0 <= i < rule.schema->0@.len() ==> (#[trigger] rule.schema->0@[i]).value_type
                == ValueType::Bool && query_view(req.query->0).dom().contains(
                rule.schema->0@[i].name@,
            ),
    ensures
        satisfies_spec(req, rule, floats) <==> forall|i: int|
            0 <= i < rule.schema->0@.len() ==> (query_view(req.query->0)[(#[trigger] rule.schema->0@[
                i]).name@] == Some("true"@) || query_view(req.query->0)[rule.schema->0@[i].name@]
                == Some("false"@)),
{
    let sc = rule.schema->0@;
    let qv = query_view(req.query->0);
    if satisfies_spec(req, rule, floats) {
        assert forall|i: int| 0 <= i < sc.len() implies (qv[(#[trigger] sc[i]).name@] == Some("true"@)
            || qv[sc[i].name@] == Some("false"@)) by {
            assert(query_value_ok(sc[i], qv, floats));
        }
    }
    if forall|i: int|
        0 <= i < sc.len() ==> (qv[(#[trigger] sc[i]).name@] == Some("true"@) || qv[sc[i].name@]
            == Some("false"@)) {
        assert forall|i: int| 0 <= i < sc.len() implies query_value_ok(#[trigger] sc[i], qv, floats) by {
            assert(qv[sc[i].name@] == Some("true"@) || qv[sc[i].name@] == Some("false"@));
        }
    }
}

impl Request {
    /// The request whose head was read as `head`, with its body: the JSON
    /// value that the body text holds, or the parser's error (a request with
    /// no body text has no body).
    pub fn from_head(head: RequestHead, body: Result<Option<JsonValue>, String>) -> (r: Result<
        Request,
        RequestError,
    >)
        ensures
            match body {
                Ok(b) => r matches Ok(req) && req.verb == head.verb && req.uri == head.uri
                    && req.query == head.query && req.body == b,
                Err(e) => r matches Err(x) && x.kind == RequestErrorKind::BodyNotJson && x.detail@
                    == e@,
            },
    {
        match body {
            Ok(b) => Ok(Request { verb: head.verb, uri: head.uri, query: head.query, body: b }),
            Err(e) => Err(RequestError::new(RequestErrorKind::BodyNotJson, e)),
        }
    }
}

/// What the filter does with what it read from the client.
#[derive(Debug, Clone, Copy, PartialEq, Eq, Structural)]
pub enum FilterAction {
    /// Pass the bytes on to the service.
    Forward,
    /// Answer `403 Forbidden` and stop.
    Reject,
    /// Stop: the bytes are not a request that the filter can read.
    Stop,
}

/// The filter's decision on a request, read or not.
pub open spec fn filter_spec(
    config: Config,
    req: Result<Request, RequestError>,
    floats: Map<Seq<char>, FloatReading>,
) -> FilterAction {
    match req {
        Err(_) => FilterAction::Stop,
        Ok(r) => if is_valid_spec(config, r, floats) {
            FilterAction::Forward
        } else {
            FilterAction::Reject
        },
    }
}

pub fn filter_decision(
    config: &Config,
    req: &Result<Request, RequestError>,
    floats: &StrMap<FloatReading>,
) -> (a: FilterAction)
    requires
        floats.wf(),
        req matches Ok(r) ==> ((r.query matches Some(q) ==> q.wf()) && readings_cover(*r, floats.view())),
    ensures
        a == filter_spec(*config, *req, floats.view()),
{
    match req {
        Err(_) => FilterAction::Stop,
        Ok(r) => {
            if config.is_valid(r, floats) {
                FilterAction::Forward
            } else {
                FilterAction::Reject
            }
        },
    }
}

/// The answer to a rejected request.
pub open spec fn forbidden_spec() -> Seq<u8> {
    "HTTP/1.1 403 Forbidden\r\n\r\n"@.map_values(|c: char| c as u8)
}

pub fn forbidden_response() -> (v: Vec<u8>)
    ensures
        v@ == forbidden_spec(),
{
    let s = "HTTP/1.1 403 Forbidden\r\n\r\n";
    let mut v: Vec<u8> = Vec::new();
    let cs = crate::text::chars_of(s);
    let mut i: usize = 0;
    proof {
        reveal_strlit("HTTP/1.1 403 Forbidden\r\n\r\n");
    }
    while i < cs.len()
        invariant
            i <= cs@.len(),
            cs@ == s@,
            s@ == "HTTP/1.1 403 Forbidden\r\n\r\n"@,
            v@ == cs@.subrange(0, i as int).map_values(|c: char| c as u8),
        decreases cs@.len() - i,
    {
        let c = cs[i];
        v.push(c as u8);
        i = i + 1;
        assert(v@ =~= cs@.subrange(0, i as int).map_values(|c: char| c as u8));
    }
    assert(cs@.subrange(0, i as int) =~= cs@);
    v
}

} // verus!
