use hardshare::check::{
    CheckStep,
    check_command, check_cprovider, check_deployment_in_remote, create_failure_message, provider_failure_message,
    token_report, token_verdict, unknown_id_message, CheckRun, CommandOutcome, Error, TokenReport, TokenVerdict,
};
use hardshare::mgmt::{CProvider, Config, WDeployment};
use hardshare::strmap::StrMap;

#[test]
fn error_texts() {
    assert_eq!(Error::new("x").text(), "x");
    assert_eq!(Error::new_empty().text(), "");
    assert!(Error::new_empty().description.is_none());
}

#[test]
fn provider_test_commands() {
    let mut wd = WDeployment::new_min("a", "o");
    assert_eq!(check_command(&wd).unwrap(), ("docker".to_string(), vec!["version".to_string()]));
    wd.cprovider = CProvider::Lxd;
    assert_eq!(check_command(&wd).unwrap(), ("lxc".to_string(), vec!["list".into(), "-c".into(), "n".into()]));
    wd.cprovider = CProvider::Proxy;
    assert_eq!(
        check_command(&wd).unwrap_err(),
        "Proxy is not configured. Try `hardshare config --assign-proxy-command`"
    );
    wd.cargs = vec!["rrhttp".into(), "c.yaml".into()];
    assert_eq!(check_command(&wd).unwrap(), ("rrhttp".to_string(), vec!["c.yaml".to_string()]));
}

#[test]
fn provider_test_outcomes() {
    let mut wd = WDeployment::new_min("a", "o");
    assert!(check_cprovider(&wd, &CommandOutcome::Ran { success: true, code: Some(0) }).is_ok());
    assert_eq!(
        check_cprovider(&wd, &CommandOutcome::Ran { success: false, code: Some(1) }).unwrap_err(),
        "`docker version` failed with return code: Some(1)"
    );
    wd.cprovider = CProvider::Podman;
    assert_eq!(
        check_cprovider(&wd, &CommandOutcome::Failed("No such file or directory (os error 2)".into())).unwrap_err(),
        "error calling `podman version`: No such file or directory (os error 2)"
    );
    wd.cprovider = CProvider::Lxd;
    assert_eq!(
        check_cprovider(&wd, &CommandOutcome::Ran { success: false, code: None }).unwrap_err(),
        "`lxc list` failed with return code: None"
    );
    wd.cprovider = CProvider::Proxy;
    assert!(check_cprovider(&wd, &CommandOutcome::Ran { success: true, code: None }).is_err());
    wd.cargs = vec!["rrhttp".into()];
    assert!(check_cprovider(&wd, &CommandOutcome::Ran { success: false, code: None }).is_ok());
    assert_eq!(check_cprovider(&wd, &CommandOutcome::Failed("gone".into())).unwrap_err(), "gone");
}

#[test]
fn deployment_in_remote() {
    let ids = vec!["a1".to_string(), "b2".to_string()];
    assert!(check_deployment_in_remote("b2", &ids).is_ok());
    let e = check_deployment_in_remote("c3", &ids).unwrap_err();
    assert!(e.text().starts_with("This deployment is not known by rerobots!"));
}

fn config_with_tokens() -> Config {
    let mut config = Config::new();
    config.api_tokens.insert("()".to_string(), vec!["/t/a".to_string()]);
    config.api_tokens.insert("acme".to_string(), vec!["/t/b".to_string(), "/t/c".to_string()]);
    config
}

#[test]
fn token_verdicts() {
    let config = config_with_tokens();
    let mut names: StrMap<Result<String, String>> = StrMap::new();
    names.insert("/t/a".into(), Ok("scott".into()));
    names.insert("/t/b".into(), Ok("frodo".into()));
    names.insert("/t/c".into(), Ok("bilbo".into()));
    assert!(matches!(token_verdict(&config, "scott", &names), TokenVerdict::Usable));
    match token_verdict(&config, "bilbo", &names) {
        TokenVerdict::OtherOrg(o) => assert_eq!(o, "acme"),
        v => panic!("unexpected {v:?}"),
    }
    assert!(matches!(token_verdict(&config, "sam", &names), TokenVerdict::NoValidTokens));
    // An owner that names an organization decides by itself.
    assert!(matches!(token_verdict(&config, "acme", &names), TokenVerdict::Usable));
    names.insert("/t/a".into(), Err("unknown error".into()));
    match token_verdict(&config, "bilbo", &names) {
        TokenVerdict::Failed(e) => assert_eq!(e, "unknown error"),
        v => panic!("unexpected {v:?}"),
    }
}

#[test]
fn token_reports() {
    assert!(matches!(token_report("w1", &TokenVerdict::Usable), TokenReport::Silent));
    match token_report("w1", &TokenVerdict::NoValidTokens) {
        TokenReport::Failure(m) => assert_eq!(m, "no valid API tokens for managing w1"),
        _ => panic!(),
    }
    match token_report("w1", &TokenVerdict::OtherOrg("acme".into())) {
        TokenReport::Warning(m) => {
            assert_eq!(m, "warning: valid API token for managing w1 with organization acme, which is not default org")
        }
        _ => panic!(),
    }
}

#[test]
fn check_messages() {
    assert_eq!(unknown_id_message("zz"), "given ID not found in local config: zz");
    assert_eq!(
        provider_failure_message("boom", CProvider::Podman),
        "boom\nIs podman installed correctly?"
    );
    assert_eq!(
        create_failure_message("boom", CProvider::Docker, "check", true),
        "caught while creating test container: boom\nYou may need to manually stop or remove it using docker: check"
    );
    assert_eq!(
        create_failure_message("boom", CProvider::Proxy, "check", true),
        "caught while creating test container: boom"
    );
    assert_eq!(
        create_failure_message("boom", CProvider::Docker, "check", false),
        "caught while creating test container: boom"
    );
}

#[test]
fn check_run_course() {
    let mut run = CheckRun::new(false);
    assert!(run.finish().is_ok());
    assert!(!run.fail());
    assert!(run.finish().unwrap_err().description.is_none());
    let mut fast = CheckRun::new(true);
    assert!(fast.fail());
}

#[test]
fn check_steps_in_order() {
    let mut order = vec![];
    let mut step = Some(CheckStep::first());
    while let Some(s) = step {
        order.push(s);
        step = s.next();
    }
    assert_eq!(
        order,
        vec![
            CheckStep::Registration,
            CheckStep::Tokens,
            CheckStep::Provider,
            CheckStep::Monitor,
            CheckStep::CreateContainer,
            CheckStep::DestroyContainer
        ]
    );
    let mut run = CheckRun::new(false);
    assert!(!run.fail_at(CheckStep::Registration));
    assert!(!run.fail_at(CheckStep::DestroyContainer));
    assert!(run.fail_at(CheckStep::Provider));
    assert!(run.fail_at(CheckStep::Monitor));
    assert!(run.finish().is_err());
    let mut run = CheckRun::new(true);
    assert!(run.fail_at(CheckStep::Tokens));
}
