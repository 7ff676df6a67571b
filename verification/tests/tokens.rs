use hardshare::tokens::{
    group_tokens, read_token_file, token_claims_of, token_file_org, token_text, token_username, TokenFile, TokenInfo,
};

fn info(subject: &str, org: Option<&str>) -> TokenInfo {
    TokenInfo { subject: subject.to_string(), organization: org.map(|o| o.to_string()), expiration: None }
}

fn file(path: &str, claims: Result<TokenInfo, String>, expired: bool) -> TokenFile {
    TokenFile { path: path.to_string(), claims, expired }
}

const KNOWN_ERRORS: [&str; 3] = ["not a valid signature", "unknown error", "Token has subject claim"];

#[test]
fn token_text_is_trimmed() {
    assert_eq!(token_text("  abc.def.ghi\n"), "abc.def.ghi");
}

#[test]
fn garbage_is_not_a_token() {
    let e = token_username("not-a-token\n").unwrap_err();
    assert!(KNOWN_ERRORS.contains(&e.as_str()));
    assert_ne!(e, "not-a-token");
    let e = token_file_org("not-a-token").unwrap_err();
    assert!(KNOWN_ERRORS.contains(&e.msg.as_str()));
    let f = read_token_file("/t/x".to_string(), "not-a-token");
    assert_eq!(f.path, "/t/x");
    assert!(f.claims.is_err());
    assert!(!f.expired);
}

#[test]
fn tokens_grouped_by_organization() {
    let files = vec![
        file("/t/a", Ok(info("scott", None)), false),
        file("/t/b", Ok(info("scott", Some("acme"))), false),
        file("/t/c", Err("not a valid signature".to_string()), false),
        file("/t/d", Ok(info("bilbo", None)), false),
        file("/t/e", Ok(info("bilbo", Some("acme"))), true),
    ];
    let (tokens, data, errors) = group_tokens(files, true);
    assert_eq!(tokens.len(), 2);
    assert_eq!(tokens.get("()").unwrap(), &vec!["/t/a".to_string(), "/t/d".to_string()]);
    assert_eq!(tokens.get("acme").unwrap(), &vec!["/t/b".to_string()]);
    assert_eq!(data.get("()").unwrap().len(), 2);
    assert_eq!(data.get("()").unwrap()[1].subject, "bilbo");
    assert_eq!(errors.len(), 2);
    assert_eq!(errors.get("/t/c").unwrap(), "not a valid signature");
    assert_eq!(errors.get("/t/e").unwrap(), "expired");
}

#[test]
fn expired_tokens_are_kept_without_error_collection() {
    let files = vec![
        file("/t/c", Err("unknown error".to_string()), false),
        file("/t/e", Ok(info("bilbo", Some("acme"))), true),
    ];
    let (tokens, _data, errors) = group_tokens(files, false);
    assert_eq!(tokens.get("acme").unwrap(), &vec!["/t/e".to_string()]);
    assert_eq!(errors.len(), 0);
}

#[test]
fn no_saved_api_tokens() {
    let (tokens, data, errors) = group_tokens(vec![], false);
    assert_eq!(tokens.len(), 0);
    assert_eq!(data.len(), 0);
    assert_eq!(errors.len(), 0);
}

const ORG_NUMBER: &str =
    "eyJhbGciOiJSUzI1NiIsInR5cCI6IkpXVCJ9.eyJzdWIiOiJzY290dCIsIm9yZyI6NX0.c2ln";
const ORG_TEXT: &str =
    "eyJhbGciOiJSUzI1NiIsInR5cCI6IkpXVCJ9.eyJzdWIiOiJzY290dCIsIm9yZyI6ImFjbWUifQ.c2ln";

#[test]
fn org_claim_that_is_not_text_is_refused() {
    assert_eq!(token_claims_of(ORG_NUMBER).unwrap_err(), "org claim is not a string");
    assert_eq!(token_username(&format!("{ORG_NUMBER}\n")).unwrap_err(), "org claim is not a string");
    assert_eq!(token_file_org(ORG_NUMBER).unwrap_err().msg, "org claim is not a string");
    let f = read_token_file("/t/n".to_string(), ORG_NUMBER);
    assert_eq!(f.claims.unwrap_err(), "org claim is not a string");
    assert!(!f.expired);
}

#[test]
fn org_claim_text_goes_to_signature_check() {
    let e = token_claims_of(ORG_TEXT).unwrap_err();
    assert!(KNOWN_ERRORS.contains(&e.as_str()));
}

#[test]
fn grouped_paths_and_claims_line_up() {
    let files = vec![
        file("/t/a", Ok(info("scott", Some("acme"))), false),
        file("/t/b", Ok(info("bilbo", Some("acme"))), true),
        file("/t/c", Ok(info("frodo", Some("acme"))), false),
    ];
    let (tokens, data, errors) = group_tokens(files, true);
    let paths = tokens.get("acme").unwrap();
    let claims = data.get("acme").unwrap();
    assert_eq!(paths, &vec!["/t/a".to_string(), "/t/c".to_string()]);
    assert_eq!(claims.len(), paths.len());
    assert_eq!(claims[1].subject, "frodo");
    for p in paths {
        assert!(errors.get(p).is_none());
    }
    assert_eq!(errors.get("/t/b").unwrap(), "expired");
}
