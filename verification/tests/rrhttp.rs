use hardshare::rrhttp::{filter_decision, forbidden_response, FilterAction};
use hardshare::http::HttpVerb;
use hardshare::json::{JsonNumber, JsonValue};
use hardshare::rrhttp::{Config, ConfigMode, FloatReading, Request, RequestRule, ValueRule, ValueType};
use hardshare::strmap::StrMap;

fn no_floats() -> StrMap<FloatReading> {
    StrMap::new()
}

fn body(entries: Vec<(&str, JsonValue)>) -> JsonValue {
    JsonValue::Object(entries.into_iter().map(|(k, v)| (k.to_string(), v)).collect())
}

fn num(n: i64) -> JsonValue {
    JsonValue::Number(JsonNumber::from_i64(n))
}

fn value_rule(name: &str, value_type: ValueType, lo: i16, hi: i16) -> ValueRule {
    ValueRule { optional: false, name: name.to_string(), value_type, range: Some((lo, hi)) }
}

#[test]
fn test_blockall() {
    let mut config = Config::new();
    let mut req = Request { verb: HttpVerb::Get, uri: "/".into(), body: None, query: None };

    // Default is allow all; confirm:
    assert!(config.is_valid(&req, &no_floats()));

    config.default = ConfigMode::Block;
    assert!(!config.is_valid(&req, &no_floats()));
    req.verb = HttpVerb::Post;
    assert!(!config.is_valid(&req, &no_floats()));
}

#[test]
fn rrhttp_test_simple_rules() {
    let mut config = Config::new();
    config.default = ConfigMode::Block;
    config.rules.push(RequestRule {
        verb: HttpVerb::Get,
        uri: "/".into(),
        has_params: None,
        has_body: None,
        schema: None,
    });

    let mut req = Request { verb: HttpVerb::Get, uri: "/".into(), body: None, query: None };

    assert!(config.is_valid(&req, &no_floats()));

    req.verb = HttpVerb::Post;
    assert!(!config.is_valid(&req, &no_floats()));

    req.verb = HttpVerb::Get;
    assert!(config.is_valid(&req, &no_floats()));
    req.uri = "/other".into();
    assert!(!config.is_valid(&req, &no_floats()));
}

fn head_config() -> Config {
    let mut config = Config::new();
    config.default = ConfigMode::Block;
    config.rules.push(RequestRule {
        verb: HttpVerb::Post,
        uri: "/api/head".into(),
        has_params: None,
        has_body: Some(true),
        schema: Some(vec![
            value_rule("Pitch", ValueType::Float, -40, 0),
            value_rule("Roll", ValueType::Float, -15, 15),
            value_rule("Yaw", ValueType::Float, -75, 75),
            value_rule("Velocity", ValueType::Int, 1, 75),
        ]),
    });
    config
}

#[test]
fn test_post_schema() {
    let config = head_config();
    assert!(config.check_rules().is_ok());

    assert!(!config.is_valid(
        &Request { verb: HttpVerb::Get, uri: "/".into(), body: None, query: None },
        &no_floats()
    ));

    let mut req = Request { verb: HttpVerb::Post, uri: "/api/head".into(), body: None, query: None };
    assert!(!config.is_valid(&req, &no_floats()));

    req.body = Some(body(vec![("Pitch", num(0)), ("Roll", num(0)), ("Yaw", num(0)), ("Velocity", num(75))]));
    assert!(config.is_valid(&req, &no_floats()));

    req.body = Some(body(vec![("Velocity", num(75))]));
    assert!(!config.is_valid(&req, &no_floats()));

    req.body = Some(body(vec![
        ("Pitch", JsonValue::Str("noise".to_string())),
        ("Roll", num(0)),
        ("Yaw", num(0)),
        ("Velocity", num(75)),
    ]));
    assert!(!config.is_valid(&req, &no_floats()));
}

#[test]
fn test_query_parsing() {
    let get_example = "GET /api/cameras/rgb?Width=800&Height=600&Base64=true HTTP/1.1\r\nHost: 127.0.0.1:50352\r\nUser-Agent: curl/8.7.1\r\nAccept: */*\r\n\r\n";

    let req = Request::parse_head(get_example.as_ref()).unwrap();
    assert_eq!(req.uri, "/api/cameras/rgb");
    assert!(req.query.is_some());
    let params = req.query.unwrap();
    assert_eq!(params.len(), 3);
    assert_eq!(params.get("Width").unwrap(), &Some("800".to_string()));
}

#[test]
fn query_value_without_equals_sign() {
    let req = Request::parse_head(b"GET /a?flag&x=1 HTTP/1.1\r\n\r\n").unwrap();
    let params = req.query.unwrap();
    assert_eq!(params.get("flag").unwrap(), &None);
    assert_eq!(params.get("x").unwrap(), &Some("1".to_string()));
    assert!(req.body_text.is_none());
}

#[test]
fn body_text_after_head() {
    let req = Request::parse_head(b"POST /api/head HTTP/1.1\r\n\r\n{\"a\": 1}").unwrap();
    assert_eq!(req.verb, HttpVerb::Post);
    assert_eq!(req.body_text, Some("{\"a\": 1}".to_string()));
}

#[test]
fn unknown_verb_is_refused() {
    let err = Request::parse_head(b"PUT / HTTP/1.1\r\n\r\n").unwrap_err();
    assert!(err.message().contains("PUT"));
}

#[test]
fn int_out_of_range_is_refused() {
    let config = head_config();
    let mut req = Request { verb: HttpVerb::Post, uri: "/api/head".into(), body: None, query: None };
    req.body = Some(body(vec![("Pitch", num(0)), ("Roll", num(0)), ("Yaw", num(0)), ("Velocity", num(76))]));
    assert!(!config.is_valid(&req, &no_floats()));
    req.body = Some(body(vec![("Pitch", num(-41)), ("Roll", num(0)), ("Yaw", num(0)), ("Velocity", num(1))]));
    assert!(!config.is_valid(&req, &no_floats()));
}

#[test]
fn float_reading_of_query_decides() {
    let mut config = Config::new();
    config.default = ConfigMode::Block;
    config.rules.push(RequestRule {
        verb: HttpVerb::Get,
        uri: "/cam".into(),
        has_params: Some(true),
        has_body: None,
        schema: Some(vec![value_rule("Width", ValueType::Float, 0, 1000)]),
    });
    let head = Request::parse_head(b"GET /cam?Width=800 HTTP/1.1\r\n\r\n").unwrap();
    let req = Request { verb: head.verb, uri: head.uri, body: None, query: head.query };
    let mut floats = StrMap::new();
    floats.insert("800".to_string(), FloatReading::Value { floor: 800, ceil: 800 });
    assert!(config.is_valid(&req, &floats));
    let mut floats = StrMap::new();
    floats.insert("800".to_string(), FloatReading::Value { floor: 1800, ceil: 1800 });
    assert!(!config.is_valid(&req, &floats));
}

#[test]
fn bad_range_is_reported() {
    let mut config = Config::new();
    config.rules.push(RequestRule {
        verb: HttpVerb::Get,
        uri: "/".into(),
        has_params: None,
        has_body: None,
        schema: Some(vec![value_rule("x", ValueType::Int, 5, 1)]),
    });
    let err = config.check_rules().unwrap_err();
    assert_eq!(err.range, (5, 1));
}

#[test]
fn filter_decisions() {
    let mut config = Config::new();
    config.default = ConfigMode::Block;
    config.rules.push(RequestRule { verb: HttpVerb::Get, uri: "/".into(), has_params: None, has_body: None, schema: None });
    let ok = Request::parse_head(b"GET / HTTP/1.1\r\n\r\n").and_then(|h| Request::from_head(h, Ok(None)));
    assert_eq!(filter_decision(&config, &ok, &no_floats()), FilterAction::Forward);
    let other = Request::parse_head(b"GET /x HTTP/1.1\r\n\r\n").and_then(|h| Request::from_head(h, Ok(None)));
    assert_eq!(filter_decision(&config, &other, &no_floats()), FilterAction::Reject);
    let bad = Request::parse_head(b"POST / HTTP/1.1\r\n\r\n{").and_then(|h| Request::from_head(h, Err("EOF while parsing".into())));
    assert_eq!(bad.as_ref().unwrap_err().message(), "error parsing body as JSON: EOF while parsing");
    assert_eq!(filter_decision(&config, &bad, &no_floats()), FilterAction::Stop);
    assert_eq!(forbidden_response(), b"HTTP/1.1 403 Forbidden\r\n\r\n".to_vec());
}
