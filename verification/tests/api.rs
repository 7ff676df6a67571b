use hardshare::api::{
    cached_token, reply_verdict, ReplyVerdict,
    ad_wdeployment, client_token_path, daemon_status, declare_check, declared_wdeployment, dissolve_index,
    may_start_ad, missing_token_message, record_registration, register_check, stop_ad, with_addon, without_addon,
    ws_command, AddOn, DaemonStatus, MainCommand, WsRejection,
};
use hardshare::control::{CWorkerCommandType, ConnType, TunnelInfo};
use hardshare::json::{JsonNumber, JsonValue};
use hardshare::mgmt::{Config, WDeployment};
use hardshare::strmap::StrMap;

#[test]
fn addon_names() {
    assert_eq!(AddOn::MistyProxy.name(), "mistyproxy");
}

#[test]
fn addons_enabled_and_disabled() {
    let list = vec!["cam".to_string()];
    let on = with_addon(&list, AddOn::MistyProxy);
    assert_eq!(on, vec!["cam".to_string(), "mistyproxy".to_string()]);
    assert_eq!(with_addon(&on, AddOn::MistyProxy), on);
    assert_eq!(without_addon(&on, AddOn::MistyProxy), Some(list.clone()));
    assert_eq!(without_addon(&list, AddOn::MistyProxy), None);
}

#[test]
fn daemon_status_text() {
    let empty = DaemonStatus { ad_deployments: vec![] };
    assert_eq!(empty.text(), "advertised deployments:\n\t(none)\n");
    let two = DaemonStatus { ad_deployments: vec!["a".into(), "b".into()] };
    assert_eq!(two.text(), "advertised deployments:\n\ta\n\tb\n");
}

#[test]
fn advertisement_table() {
    let mut table: StrMap<u32> = StrMap::new();
    assert!(may_start_ad(&table, "w1"));
    table.insert("w1".into(), 1);
    table.insert("w2".into(), 2);
    assert!(!may_start_ad(&table, "w1"));
    assert_eq!(daemon_status(&table).ad_deployments, vec!["w1".to_string(), "w2".to_string()]);
    assert_eq!(stop_ad(&mut table, "w1"), Some((1, MainCommand::Stop)));
    assert_eq!(stop_ad(&mut table, "w1"), None);
    assert_eq!(stop_ad(&mut table, "w2"), Some((2, MainCommand::StopDaemon)));
    assert_eq!(MainCommand::from_text("STOP DAEMON"), Some(MainCommand::StopDaemon));
    assert_eq!(MainCommand::from_text(MainCommand::RestartWebsocket.text()), Some(MainCommand::RestartWebsocket));
    assert_eq!(MainCommand::from_text("PAUSE"), None);
}

fn config_one(id: &str) -> Config {
    let mut c = Config::new();
    c.wdeployments.push(WDeployment::new_min(id, "scott"));
    c.ssh_key = "/k/tun".into();
    c
}

#[test]
fn client_token_choice() {
    let mut c = Config::new();
    assert_eq!(client_token_path(&c), None);
    assert_eq!(missing_token_message(Some(&c)), "No valid API tokens found (no default org)");
    assert_eq!(missing_token_message(None), "No valid API tokens found");
    c.api_tokens.insert("()".into(), vec!["/t/a".into(), "/t/b".into()]);
    assert_eq!(client_token_path(&c), Some("/t/a".to_string()));
    c.default_org = Some("acme".into());
    assert_eq!(client_token_path(&c), None);
    assert_eq!(missing_token_message(Some(&c)), "No valid API tokens found for org acme");
}

#[test]
fn registration_checks() {
    assert!(register_check(None, true).is_err());
    let mut c = config_one("w1");
    assert!(register_check(Some(&c), true).unwrap_err().contains("--permit-more"));
    assert!(register_check(Some(&c), false).is_ok());
    assert_eq!(record_registration(&mut c, "w2", "bilbo"), "w2");
    assert_eq!(c.wdeployments.len(), 2);
    assert_eq!(c.wdeployments[1].owner, "bilbo");
}

#[test]
fn declaration_checks() {
    let c = config_one("w1");
    assert!(declare_check(Some(&c), "w1").unwrap_err().starts_with("attempted to declare"));
    assert!(declare_check(Some(&c), "w2").is_ok());
    assert!(declare_check(None, "w2").is_err());
    let ids = vec!["w2".to_string()];
    assert_eq!(declared_wdeployment(&ids, "scott", "w2").unwrap().id, "w2");
    assert_eq!(
        declared_wdeployment(&ids, "scott", "w3").unwrap_err(),
        "no previously registered workspace deployments found with given ID"
    );
}

#[test]
fn dissolve_checks() {
    assert_eq!(dissolve_index(None, "w1").unwrap_err(), "cannot dissolve without local configuration");
    let empty = Config::new();
    assert_eq!(
        dissolve_index(Some(&empty), "w1").unwrap_err(),
        "Unexpected dissolve request: local configuration is empty"
    );
    let mut c = config_one("w0");
    c.wdeployments.push(WDeployment::new_min("w1", "s"));
    assert_eq!(dissolve_index(Some(&c), "w1"), Ok(1));
}

#[test]
fn advertised_deployment_gets_ssh_key() {
    let c = config_one("68a1be97");
    let wd = ad_wdeployment(&c, "68").unwrap();
    assert_eq!(wd.ssh_key, Some("/k/tun".to_string()));
    assert!(ad_wdeployment(&c, "x").is_err());
}

fn message(entries: Vec<(&str, JsonValue)>) -> JsonValue {
    JsonValue::Object(entries.into_iter().map(|(k, v)| (k.to_string(), v)).collect())
}

fn s(x: &str) -> JsonValue {
    JsonValue::Str(x.to_string())
}

fn v0() -> JsonValue {
    JsonValue::Number(JsonNumber::from_i64(0))
}

fn tunnel() -> TunnelInfo {
    TunnelInfo { hostkey: "k".into(), ipv4: "1.2.3.4".into(), port: 22, thport: 2210, thuser: "u".into() }
}

#[test]
fn websocket_commands() {
    let launch = message(vec![("v", v0()), ("cmd", s("INSTANCE_LAUNCH")), ("id", s("i")), ("mi", s("m")), ("pr", s("pk"))]);
    let c = ws_command(&launch, Err("no tunnel".into())).unwrap();
    assert_eq!(c.command, CWorkerCommandType::InstanceLaunch);
    assert_eq!(c.publickey, Some("pk".to_string()));
    assert_eq!(c.conntype, Some(ConnType::SshTun));

    let status = message(vec![("v", v0()), ("cmd", s("INSTANCE_STATUS")), ("id", s("i")), ("mi", s("m"))]);
    assert_eq!(ws_command(&status, Err("x".into())).unwrap().command, CWorkerCommandType::InstanceStatus);

    let done = message(vec![("v", v0()), ("cmd", s("CREATE_SSHTUN_DONE")), ("id", s("i")), ("mi", s("m"))]);
    assert_eq!(ws_command(&done, Ok(tunnel())).unwrap().tunnelinfo.unwrap().thport, 2210);
    assert!(matches!(ws_command(&done, Err("bad".into())), Err(WsRejection::BadTunnelInfo(_))));

    let unknown = message(vec![("v", v0()), ("cmd", s("DANCE"))]);
    assert!(matches!(ws_command(&unknown, Err("x".into())), Err(WsRejection::UnknownCommand(c)) if c == "DANCE"));
    let v1 = message(vec![("v", JsonValue::Number(JsonNumber::from_i64(1))), ("cmd", s("DANCE"))]);
    assert!(matches!(ws_command(&v1, Err("x".into())), Err(WsRejection::UnknownVersion(1))));
    assert!(matches!(ws_command(&message(vec![]), Err("x".into())), Err(WsRejection::NoVersion)));
    assert!(matches!(ws_command(&message(vec![("v", v0())]), Err("x".into())), Err(WsRejection::NoCommand)));
}

fn record(addons: Vec<&str>, config: Option<JsonValue>) -> JsonValue {
    let mut es = vec![("id".to_string(), s("w1"))];
    es.push(("supported_addons".to_string(), JsonValue::Array(addons.into_iter().map(s).collect())));
    if let Some(c) = config {
        es.push(("addons_config".to_string(), c));
    }
    JsonValue::Object(es)
}

fn strings(v: &JsonValue) -> Vec<String> {
    match v {
        JsonValue::Array(a) => a
            .iter()
            .map(|x| match x {
                JsonValue::Str(s) => s.clone(),
                _ => panic!(),
            })
            .collect(),
        _ => panic!(),
    }
}

#[test]
fn enabling_an_addon() {
    let ip = message(vec![("ip", s("192.168.1.7"))]);
    let u = hardshare::api::upsert_update(record(vec!["cam"], None), AddOn::MistyProxy, Some(ip));
    assert_eq!(key_list(&u), vec!["supported_addons".to_string(), "addons_config".to_string()]);
    assert_eq!(strings(u.get("supported_addons").unwrap()), vec!["cam".to_string(), "mistyproxy".to_string()]);
    match u.get("addons_config").unwrap() {
        JsonValue::Object(es) => {
            assert_eq!(es.len(), 1);
            assert_eq!(es[0].0, "addons_config");
        }
        _ => panic!(),
    }
    let existing = message(vec![("vnc", JsonValue::Null)]);
    let u = hardshare::api::upsert_update(
        record(vec!["mistyproxy"], Some(existing)),
        AddOn::MistyProxy,
        Some(message(vec![("ip", s("1.2.3.4"))])),
    );
    assert_eq!(strings(u.get("supported_addons").unwrap()), vec!["mistyproxy".to_string()]);
    match u.get("addons_config").unwrap() {
        JsonValue::Object(es) => {
            assert_eq!(es.len(), 2);
            assert_eq!(es[1].0, "mistyproxy");
        }
        _ => panic!(),
    }
}

#[test]
fn disabling_an_addon() {
    let cfg = message(vec![("mistyproxy", message(vec![("ip", s("1.2.3.4"))])), ("vnc", JsonValue::Null)]);
    let u = hardshare::api::remove_update(record(vec!["mistyproxy", "vnc"], Some(cfg)), AddOn::MistyProxy).unwrap();
    assert_eq!(key_list(&u), vec!["addons_config".to_string(), "supported_addons".to_string()]);
    assert_eq!(strings(u.get("supported_addons").unwrap()), vec!["vnc".to_string()]);
    match u.get("addons_config").unwrap() {
        JsonValue::Object(es) => {
            assert_eq!(es.len(), 1);
            assert_eq!(es[0].0, "vnc");
        }
        _ => panic!(),
    }
    assert!(hardshare::api::remove_update(record(vec!["vnc"], None), AddOn::MistyProxy).is_none());
}

#[test]
fn reading_an_addon_config() {
    let cfg = message(vec![("mistyproxy", message(vec![("ip", s("192.168.1.7"))]))]);
    match hardshare::api::addon_config(record(vec!["mistyproxy"], Some(cfg)), AddOn::MistyProxy).unwrap() {
        JsonValue::Object(es) => assert_eq!(es[0].0, "ip"),
        _ => panic!(),
    }
    assert!(matches!(
        hardshare::api::addon_config(record(vec!["mistyproxy"], None), AddOn::MistyProxy),
        Ok(JsonValue::Null)
    ));
    assert_eq!(
        hardshare::api::addon_config(record(vec![], None), AddOn::MistyProxy).unwrap_err(),
        "add-on mistyproxy is not enabled"
    );
}

fn key_list(m: &StrMap<JsonValue>) -> Vec<String> {
    (0..m.len()).map(|i| m.entry_at(i).0.clone()).collect()
}

#[test]
fn get_mistyproxy_config() {
    let addr = "192.168.1.7";
    let payload = message(vec![
        ("supported_addons", JsonValue::Array(vec![s("mistyproxy")])),
        ("addons_config", message(vec![("mistyproxy", message(vec![("ip", s(addr))]))])),
    ]);
    let addonsc = hardshare::api::addon_config(payload, AddOn::MistyProxy).unwrap();
    let entries = match addonsc {
        JsonValue::Object(es) => es,
        _ => panic!("add-on configuration is not an object"),
    };
    assert!(entries.iter().any(|(k, _)| k == "ip"));
    let returned_addr = match &entries.iter().find(|(k, _)| k == "ip").unwrap().1 {
        JsonValue::Str(x) => x.clone(),
        _ => panic!("ip is not a string"),
    };
    assert_eq!(addr, returned_addr);
}

#[test]
fn register_new() {
    let expected_new_wdids = vec![
        "68a1be97-9365-4007-b726-14c56bd69eef",
        "2d6039bc-7c83-4d46-8567-c8df4711c386",
    ];
    let mut config = Config::new();
    assert!(register_check(Some(&config), true).is_ok());
    let res = record_registration(&mut config, expected_new_wdids[0], "scott");
    assert_eq!(res, expected_new_wdids[0]);

    assert!(register_check(Some(&config), true).is_err());

    assert!(register_check(Some(&config), false).is_ok());
    let res = record_registration(&mut config, expected_new_wdids[1], "scott");
    assert_eq!(res, expected_new_wdids[1]);
    assert_eq!(config.wdeployments.len(), 2);
}

#[test]
fn reply_statuses() {
    assert!(matches!(reply_verdict(200, "200 OK", "x", true, true), ReplyVerdict::Success));
    assert!(matches!(reply_verdict(400, "400 Bad Request", "x", true, false), ReplyVerdict::Refused));
    match reply_verdict(400, "400 Bad Request", "error dissolving", false, false) {
        ReplyVerdict::Failed(m) => assert_eq!(m, "error dissolving: 400 Bad Request"),
        _ => panic!(),
    }
    match reply_verdict(404, "404 Not Found", "server indicated error", true, true) {
        ReplyVerdict::Failed(m) => assert_eq!(m, "not found"),
        _ => panic!(),
    }
    match reply_verdict(404, "404 Not Found", "server indicated error", true, false) {
        ReplyVerdict::Failed(m) => assert_eq!(m, "server indicated error: 404 Not Found"),
        _ => panic!(),
    }
}

#[test]
fn a_cached_token_is_needed() {
    assert_eq!(cached_token(&None).unwrap_err(), "No valid API tokens found.");
    assert_eq!(cached_token(&Some("abc".to_string())).unwrap(), "abc");
}
