use hardshare::mgmt::{
    add_ssh_path, append_urls, error, expand_id_prefixes, find_id_prefix, public_key_path, CProvider, Config,
    SshKeyCandidate, WDeployment,
};
use hardshare::json::JsonValue;
use hardshare::strmap::StrMap;

type TestResult = Result<(), Box<dyn std::error::Error>>;

fn wd(id: &str, owner: &str, cprovider: CProvider, image: Option<&str>) -> WDeployment {
    let mut w = WDeployment::new_min(id, owner);
    w.cprovider = cprovider;
    w.image = image.map(|s| s.to_string());
    w
}

fn example_config() -> Config {
    let mut local_config = Config::new();
    local_config.wdeployments.push(wd("2d6039bc-7c83-4d46-8567-c8df4711c386", "scott", CProvider::Proxy, None));
    local_config.wdeployments.push(wd(
        "68a1be97-9365-4007-b726-14c56bd69eef",
        "bilbo",
        CProvider::Podman,
        Some("rerobots/hs-generic"),
    ));
    local_config.ssh_key = "/home/scott/.rerobots/ssh/tun".to_string();
    local_config
}

#[test]
fn find_id() -> TestResult {
    let local_config = Config::new();
    assert!(find_id_prefix(&local_config, Some("a")).is_err());

    let local_config = example_config();
    assert!(find_id_prefix(&local_config, Some("a")).is_err());
    let wd_index = find_id_prefix(&local_config, Some("2")).map_err(|e| e.msg)?;
    assert_eq!(wd_index, 0);
    let wd_index = find_id_prefix(&local_config, Some("6")).map_err(|e| e.msg)?;
    assert_eq!(wd_index, 1);

    Ok(())
}

#[test]
fn find_id_messages() {
    let mut local_config = Config::new();
    assert_eq!(
        find_id_prefix(&local_config, None).unwrap_err().msg,
        "no workspace deployment in local configuration."
    );
    local_config.wdeployments.push(wd("abc1", "a", CProvider::Docker, None));
    assert_eq!(find_id_prefix(&local_config, None).unwrap(), 0);
    local_config.wdeployments.push(wd("abc2", "a", CProvider::Docker, None));
    assert_eq!(
        find_id_prefix(&local_config, None).unwrap_err().msg,
        "ambiguous command: more than 1 workspace deployment defined."
    );
    assert_eq!(
        find_id_prefix(&local_config, Some("abc")).unwrap_err().msg,
        "given prefix matches more than 1 workspace deployment: abc1, abc2"
    );
    assert_eq!(
        find_id_prefix(&local_config, Some("x")).unwrap_err().msg,
        "given prefix does not match any workspace deployments"
    );
}

#[test]
fn expand_prefixes() {
    let local_config = example_config();
    assert_eq!(
        expand_id_prefixes(&local_config, &["6", "2"]).unwrap(),
        vec!["68a1be97-9365-4007-b726-14c56bd69eef".to_string(), "2d6039bc-7c83-4d46-8567-c8df4711c386".to_string()]
    );
    assert!(expand_id_prefixes(&local_config, &[]).is_err());
    assert!(expand_id_prefixes(&local_config, &["6", "z"]).is_err());
}

#[test]
fn urls_are_appended_once() {
    let mut local_config = example_config();
    local_config.wdeployments[1].url = Some("https://example.org/x".to_string());
    append_urls(&mut local_config);
    assert_eq!(
        local_config.wdeployments[0].url,
        Some("https://rerobots.net/workspace/2d6039bc-7c83-4d46-8567-c8df4711c386".to_string())
    );
    assert_eq!(local_config.wdeployments[1].url, Some("https://example.org/x".to_string()));
    append_urls(&mut local_config);
    assert_eq!(
        local_config.wdeployments[0].url,
        Some("https://rerobots.net/workspace/2d6039bc-7c83-4d46-8567-c8df4711c386".to_string())
    );
}

#[test]
fn provider_names() {
    for p in [CProvider::Docker, CProvider::DockerRootless, CProvider::Lxd, CProvider::Podman, CProvider::Proxy] {
        assert_eq!(CProvider::from_name(p.name()), Ok(p));
    }
    assert_eq!(CProvider::DockerRootless.name(), "docker-rootless");
    assert!(CProvider::from_name("kvm").is_err());
    assert_eq!(CProvider::DockerRootless.get_execname(), Ok("docker".to_string()));
    assert_eq!(CProvider::Podman.get_execname(), Ok("podman".to_string()));
    assert_eq!(CProvider::Proxy.get_execname(), Err("Container provider should have executable"));
}

#[test]
fn error_carries_message() {
    let r: Result<(), _> = error("no configuration data found");
    assert_eq!(r.unwrap_err().msg, "no configuration data found");
}

#[test]
fn minimal_deployment_defaults() {
    let w = WDeployment::new_min("68a1be97-9365-4007-b726-14c56bd69eef", "owner");
    assert_eq!(w.cprovider, CProvider::Docker);
    assert_eq!(w.container_name, "rrc");
    assert_eq!(w.image, Some("rerobots/hs-generic".to_string()));
    assert!(w.cargs.is_empty() && w.init_inside.is_empty() && w.terminate.is_empty());
    assert!(w.monitor.is_none() && w.url.is_none() && w.ssh_key.is_none());
}

#[test]
fn deployment_from_json_entry() {
    let mut h: StrMap<JsonValue> = StrMap::new();
    h.insert("id".into(), JsonValue::Str("x1".into()));
    h.insert("owner".into(), JsonValue::Str("o".into()));
    h.insert("cprovider".into(), JsonValue::Str("proxy".into()));
    h.insert("cargs".into(), JsonValue::Array(vec![JsonValue::Str("rrhttp".into()), JsonValue::Str("a.yaml".into())]));
    let w = WDeployment::from_json(&h);
    assert_eq!(w.cprovider, CProvider::Proxy);
    assert_eq!(w.cargs, vec!["rrhttp".to_string(), "a.yaml".to_string()]);
    assert_eq!(w.image, None);
    assert_eq!(w.container_name, "rrc");
}

#[test]
fn public_key_paths() {
    assert_eq!(public_key_path("/home/u/.ssh/id_rsa"), "/home/u/.ssh/id_rsa.pub");
    assert_eq!(public_key_path("/home/u/key.pem"), "/home/u/key.pub");
    assert_eq!(public_key_path("/home/u/key.pub"), "/home/u/key.pub");
}

fn candidate(path: &str, utf8: bool, exists: bool, public_exists: bool) -> SshKeyCandidate {
    SshKeyCandidate { path: path.to_string(), utf8, exists, public_exists }
}

#[test]
fn ssh_key_paths() {
    let mut c = Config::new();
    assert_eq!(add_ssh_path(&mut c, &candidate("/k/tun", true, false, true)).unwrap_err().msg, "file does not exist");
    assert_eq!(
        add_ssh_path(&mut c, &candidate("/k/tun.pub", true, true, true)).unwrap_err().msg,
        "public key file cannot be same as secret key file"
    );
    assert_eq!(
        add_ssh_path(&mut c, &candidate("/k/tun", true, true, false)).unwrap_err().msg,
        "public key file does not exist"
    );
    assert_eq!(add_ssh_path(&mut c, &candidate("/k/tun", false, true, true)).unwrap_err().msg, "path not given in UTF-8");
    assert_eq!(c.ssh_key, "");
    add_ssh_path(&mut c, &candidate("/k/tun", true, true, true)).unwrap();
    assert_eq!(c.ssh_key, "/k/tun");
}
