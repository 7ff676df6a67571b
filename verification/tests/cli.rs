use hardshare::cli::{addon_named, daemon_address, rules_comment};
use hardshare::cli::{
    add_program, add_raw_device, assign_cprovider, assign_image, confirm_answer, declare_default_org, device_arg,
    image_check_argv, note_org, parse_format, remove_program, remove_raw_device, CliError, PrintingFormat,
};
use hardshare::mgmt::{CProvider, Config, WDeployment};

#[test]
fn cli_error_constructors() {
    let e = CliError::new("bad", 1).unwrap_err();
    assert_eq!(e.msg, Some("bad".to_string()));
    assert_eq!(e.exitcode, 1);
    assert_eq!(e.text(), "bad");
    let e = CliError::newrc(2).unwrap_err();
    assert_eq!(e.msg, None);
    assert_eq!(e.exitcode, 2);
    assert_eq!(e.text(), "");
    assert_eq!(CliError::new_std("x", 1).unwrap_err().text(), "x");
    assert_eq!(CliError::new_stdio("y", 1).unwrap_err().text(), "y");
}

#[test]
fn formats_are_read_in_any_case() {
    assert_eq!(parse_format("JSON").unwrap(), PrintingFormat::Json);
    assert_eq!(parse_format("yaml").unwrap(), PrintingFormat::Yaml);
    assert_eq!(parse_format("Yaml").unwrap(), PrintingFormat::Yaml);
    assert_eq!(parse_format("xml").unwrap_err().text(), "unrecognized format: xml");
}

#[test]
fn switching_provider_sets_image() {
    let mut wd = WDeployment::new_min("a", "o");
    assert_eq!(assign_cprovider(&mut wd, "Docker").unwrap(), false);
    assert_eq!(assign_cprovider(&mut wd, "proxy").unwrap(), true);
    assert_eq!(wd.cprovider, CProvider::Proxy);
    assert_eq!(wd.image, None);
    assert_eq!(assign_cprovider(&mut wd, "PODMAN").unwrap(), true);
    assert_eq!(wd.image, Some("rerobots/hs-generic".to_string()));
    let e = assign_cprovider(&mut wd, "kvm").unwrap_err();
    assert_eq!(e.text(), "cprovider must be one of the following: lxd, docker, podman, proxy");
    assert_eq!(wd.cprovider, CProvider::Podman);
    assert_eq!(assign_cprovider(&mut wd, "docker-rootless").unwrap(), true);
    assert_eq!(wd.cprovider, CProvider::DockerRootless);
}

#[test]
fn image_checks_by_provider() {
    let mut wd = WDeployment::new_min("a", "o");
    assert_eq!(image_check_argv(&wd, "img").unwrap(), vec!["docker", "image", "inspect", "img"]);
    wd.cprovider = CProvider::Podman;
    assert_eq!(image_check_argv(&wd, "img").unwrap(), vec!["podman", "image", "exists", "img"]);
    wd.cprovider = CProvider::Lxd;
    assert_eq!(image_check_argv(&wd, "img").unwrap(), vec!["lxc", "image", "show", "img"]);
    wd.cprovider = CProvider::Proxy;
    assert_eq!(image_check_argv(&wd, "img").unwrap_err().text(), "cannot --assign-image for cprovider `proxy`");
    assign_image(&mut wd, "other");
    assert_eq!(wd.image, Some("other".to_string()));
}

#[test]
fn devices_are_added_and_removed() {
    let mut wd = WDeployment::new_min("a", "o");
    assert_eq!(device_arg("/dev/ttyUSB0"), "--device=/dev/ttyUSB0:/dev/ttyUSB0");
    add_raw_device(&mut wd, "/dev/ttyUSB0").unwrap();
    assert_eq!(wd.cargs, vec!["--device=/dev/ttyUSB0:/dev/ttyUSB0".to_string()]);
    assert_eq!(add_raw_device(&mut wd, "/dev/ttyUSB0").unwrap_err().text(), "device already added");
    remove_raw_device(&mut wd, "/dev/ttyUSB0", &Err("not canonical".to_string())).unwrap();
    assert!(wd.cargs.is_empty());
    assert_eq!(
        remove_raw_device(&mut wd, "/dev/ttyUSB0", &Ok("/dev/ttyUSB0".to_string())).unwrap_err().text(),
        "device not previously added"
    );
    wd.cprovider = CProvider::Lxd;
    assert_eq!(
        add_raw_device(&mut wd, "/dev/ttyUSB0").unwrap_err().text(),
        "adding devices not supported by this cprovider"
    );
}

#[test]
fn programs_are_added_and_removed() {
    let mut list = vec!["a".to_string()];
    add_program(&mut list, "b");
    assert_eq!(list, vec!["a".to_string(), "b".to_string()]);
    remove_program(&mut list, "b").unwrap();
    assert_eq!(list, vec!["a".to_string()]);
    assert_eq!(remove_program(&mut list, "z").unwrap_err().text(), "no matching program found");
}

#[test]
fn default_org_must_be_known() {
    let mut config = Config::new();
    let e = declare_default_org(&mut config, Some("acme")).unwrap_err();
    assert_eq!(e.text(), "unknown organization \"acme\"");
    note_org(&mut config, "acme");
    note_org(&mut config, "acme");
    assert_eq!(config.known_orgs, vec!["acme".to_string()]);
    declare_default_org(&mut config, Some("acme")).unwrap();
    assert_eq!(config.default_org, Some("acme".to_string()));
    declare_default_org(&mut config, Some("")).unwrap();
    assert_eq!(config.default_org, None);
}

#[test]
fn answers_to_confirmation() {
    assert_eq!(confirm_answer(" Yes\n").0, Some(true));
    assert_eq!(confirm_answer("n").0, Some(false));
    assert_eq!(confirm_answer("\n").0, Some(false));
    assert_eq!(confirm_answer("maybe").0, None);
    assert_eq!(confirm_answer(" MAYBE ").1, "maybe");
}

#[test]
fn small_cli_helpers() {
    assert!(matches!(addon_named(Some("mistyproxy")), Ok(hardshare::api::AddOn::MistyProxy)));
    assert_eq!(addon_named(Some("vnc")).unwrap_err().text(), "unknown add-on");
    assert_eq!(addon_named(None).unwrap_err().text(), "add-on must be specified with `-a`");
    assert_eq!(daemon_address("6666"), "127.0.0.1:6666");
    assert_eq!(rules_comment(None), "Access is denied unless a rule explicitly permits it.");
    assert_eq!(rules_comment(Some("x".into())), "x");
}
