use hardshare::json::JsonValue;
use hardshare::mgmt::{append_urls, CProvider, Config, WDeployment};
use hardshare::report::config_text;
use hardshare::strmap::StrMap;

fn obj(entries: Vec<(&str, JsonValue)>) -> JsonValue {
    JsonValue::Object(entries.into_iter().map(|(k, v)| (k.to_string(), v)).collect())
}

fn s(x: &str) -> JsonValue {
    JsonValue::Str(x.to_string())
}

#[test]
fn empty_local_listing() {
    let c = Config::new();
    assert_eq!(
        config_text(&c, None, false),
        "workspace deployments defined in local configuration:\n\t(none)\n\ndefault org: (none)\n\nfound API tokens:\n\t(none)\n"
    );
}

#[test]
fn full_local_listing() {
    let mut c = Config::new();
    let mut wd = WDeployment::new_min("w1", "scott");
    wd.cargs = vec!["a".into(), "b".into()];
    wd.init_inside = vec!["echo hi".into()];
    c.wdeployments.push(wd);
    let mut p = WDeployment::new_min("w2", "scott");
    p.cprovider = CProvider::Proxy;
    p.image = None;
    p.terminate = vec!["stop".into()];
    c.wdeployments.push(p);
    append_urls(&mut c);
    c.default_org = Some("acme".into());
    c.api_tokens.insert("acme".into(), vec!["/t/b".into()]);
    c.api_tokens.insert("()".into(), vec!["/t/a".into()]);
    let mut errs = StrMap::new();
    errs.insert("/t/c".to_string(), "expired".to_string());
    c.err_api_tokens = Some(errs);
    let expected = "workspace deployments defined in local configuration:\n\
w1\n\turl: https://rerobots.net/workspace/w1\n\towner: scott\n\tcprovider: docker\n\tcargs: a, b\n\timg: rerobots/hs-generic\n\tinit inside:\n\t\techo hi\n\
w2\n\turl: https://rerobots.net/workspace/w2\n\towner: scott\n\tcprovider: proxy\n\tcargs: \n\tterminate:\n\t\tstop\n\
\ndefault org: acme\n\nfound API tokens:\n\t/t/a\n\tacme:\n\t\t/t/b\n\
found possible API tokens with errors:\n\t expired: /t/c\n";
    assert_eq!(config_text(&c, None, false), expected);
}

#[test]
fn remote_listing() {
    let mut c = Config::new();
    c.wdeployments.push(WDeployment::new_min("w1", "scott"));
    append_urls(&mut c);
    let remote = obj(vec![(
        "wdeployments",
        JsonValue::Array(vec![
            obj(vec![
                ("id", s("w1")),
                ("date_created", s("2024-01-01")),
                ("desc", JsonValue::Null),
                ("origin", s("10.0.0.1")),
                ("lockout", JsonValue::Bool(true)),
            ]),
            obj(vec![("id", s("w9")), ("date_created", s("2023")), ("lockout", JsonValue::Bool(false))]),
        ]),
    )]);
    let text = config_text(&c, Some(&remote), false);
    assert!(text.ends_with(
        "\nregistration details for workspace deployments in local config:\nw1\n\tcreated: 2024-01-01\n\torigin (address) of registration: 10.0.0.1\n\tlock-out: true\n"
    ));
    let all = config_text(&c, Some(&remote), true);
    assert!(all.ends_with("w9\n\tcreated: 2023\n\torigin (address) of registration: (unknown)\n"));
    let none = obj(vec![("wdeployments", JsonValue::Array(vec![]))]);
    assert!(config_text(&c, Some(&none), true).ends_with("\nno registered workspace deployments with this user account\n"));
}
