use hardshare::http::HttpVerb;
use hardshare::rrpc::{wrap_output, Config, Request, RequestRule};

type TestResult = Result<(), Box<dyn std::error::Error>>;

#[test]
fn test_empty_default() {
    let config = Config::new();

    // No rules => reject
    assert_eq!(
        config.find_rule(&Request { verb: HttpVerb::Get, uri: "/".into(), body: None }),
        None
    );
}

#[test]
fn rrpc_test_simple_rules() -> TestResult {
    let mut config = Config::new();
    config.rules.push(RequestRule { verb: HttpVerb::Get, uri: "/date".into(), command: vec!["date".into()] });

    let mut req = Request { verb: HttpVerb::Get, uri: "/date".into(), body: None };

    let rule = config.find_rule(&req);
    assert!(rule.is_some());
    let rule = rule.expect("Request should have a matching rule");
    // The rule runs `date` with no arguments.
    assert_eq!(rule.command[0], "date");
    assert!(rule.run_args(&req).is_empty());

    req.verb = HttpVerb::Post;
    assert_eq!(config.find_rule(&req), None);

    Ok(())
}

#[test]
fn post_body_is_last_argument() {
    let rule = RequestRule {
        verb: HttpVerb::Post,
        uri: "/echo".into(),
        command: vec!["echo".into(), "-n".into()],
    };
    let req = Request { verb: HttpVerb::Post, uri: "/echo".into(), body: Some("hi".into()) };
    assert_eq!(rule.run_args(&req), vec!["-n".to_string(), "hi".to_string()]);
    let get = Request { verb: HttpVerb::Get, uri: "/echo".into(), body: Some("hi".into()) };
    assert_eq!(rule.run_args(&get), vec!["-n".to_string()]);
}

#[test]
fn request_drops_query_and_get_body() {
    let req = Request::new(b"GET /date?x=1 HTTP/1.1\r\n\r\nignored").unwrap();
    assert_eq!(req.uri, "/date");
    assert!(req.body.is_none());
    let req = Request::new(b"POST /echo HTTP/1.1\r\n\r\nbody").unwrap();
    assert_eq!(req.body, Some("body".to_string()));
}

#[test]
fn empty_command_is_reported() {
    let mut config = Config::new();
    config.rules.push(RequestRule { verb: HttpVerb::Get, uri: "/a".into(), command: vec!["ls".into()] });
    config.rules.push(RequestRule { verb: HttpVerb::Post, uri: "/b".into(), command: vec![] });
    assert_eq!(config.check_rules(), Err("POST /b has empty command".to_string()));
}

#[test]
fn output_is_wrapped_with_byte_length() {
    assert_eq!(
        wrap_output("héllo"),
        "HTTP/1.1 200 OK\r\nContent-Type: text/plain\r\nContent-Length: 6\r\n\r\nhéllo"
    );
    assert_eq!(wrap_output(""), "HTTP/1.1 200 OK\r\n\r\n");
}
