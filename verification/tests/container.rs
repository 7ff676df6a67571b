use hardshare::container::{monitor_failure, script_failure, shell_args};
use hardshare::container::{
    clone_script, exec_script_args, exit_code_string, hostkey_copy_args, key_setup_commands, launch_method,
    proxy_command, proxy_port, remove_args, remove_failed_message, repo_run_script, sshport_from_output, tunnel_args,
    LaunchMethod,
};
use hardshare::control::TunnelInfo;
use hardshare::mgmt::{CProvider, WDeployment};
use hardshare::numbers::IntErrorKind;

#[test]
fn docker_launch() {
    let mut wd = WDeployment::new_min("a", "o");
    wd.cargs = vec!["--device=/dev/x:/dev/x".into()];
    match launch_method(&wd, "rrc1", false).unwrap() {
        LaunchMethod::Container { execname, run_args, ip, port } => {
            assert_eq!(execname, "docker");
            assert_eq!(
                run_args,
                vec![
                    "run", "-d", "-h", "rrc1", "--name", "rrc1", "--device=/dev/net/tun:/dev/net/tun",
                    "--cap-add=NET_ADMIN", "--device=/dev/x:/dev/x", "rerobots/hs-generic"
                ]
            );
            assert_eq!(ip, None);
            assert_eq!(port, Some(22));
        }
        LaunchMethod::Proxy => panic!(),
    }
}

#[test]
fn podman_launch_with_log() {
    let mut wd = WDeployment::new_min("a", "o");
    wd.cprovider = CProvider::Podman;
    match launch_method(&wd, "n", true).unwrap() {
        LaunchMethod::Container { execname, run_args, ip, port } => {
            assert_eq!(execname, "podman");
            assert_eq!(
                run_args,
                vec![
                    "run", "-d", "-h", "n", "--name", "n", "--device=/dev/net/tun:/dev/net/tun", "--cap-add=NET_ADMIN",
                    "--cap-add=CAP_SYS_CHROOT", "-p", "127.0.0.1::22", "-e", "HARDSHARE_LOG=1", "rerobots/hs-generic"
                ]
            );
            assert_eq!(ip, Some("127.0.0.1".to_string()));
            assert_eq!(port, None);
        }
        LaunchMethod::Proxy => panic!(),
    }
}

#[test]
fn launch_refusals() {
    let mut wd = WDeployment::new_min("a", "o");
    wd.image = None;
    assert_eq!(launch_method(&wd, "n", false).unwrap_err(), "no image in configuration");
    wd.cprovider = CProvider::Lxd;
    assert_eq!(launch_method(&wd, "n", false).unwrap_err(), "lxd cprovider not implemented yet");
    wd.cprovider = CProvider::Proxy;
    assert!(matches!(launch_method(&wd, "n", false).unwrap(), LaunchMethod::Proxy));
}

#[test]
fn instance_setup_commands() {
    let cmds = key_setup_commands("n", "/tmp/k");
    assert_eq!(cmds[0], vec!["exec", "n", "/bin/mkdir", "-p", "/root/.ssh"]);
    assert_eq!(cmds[1], vec!["cp", "/tmp/k", "n:/root/.ssh/authorized_keys"]);
    assert_eq!(cmds[2], vec!["exec", "n", "/bin/chown", "0:0", "/root/.ssh/authorized_keys"]);
    assert_eq!(exec_script_args("n", "echo hi"), vec!["exec", "n", "/bin/sh", "-c", "echo hi"]);
    assert_eq!(hostkey_copy_args("n"), vec!["cp", "n:/etc/ssh/ssh_host_ecdsa_key.pub", "."]);
    assert_eq!(clone_script("https://g/r"), "cd $HOME && git clone https://g/r m");
    assert_eq!(repo_run_script("make"), "cd $HOME/m && make");
    assert_eq!(remove_args("n"), vec!["rm", "-f", "n"]);
}

#[test]
fn ports_from_output() {
    assert_eq!(sshport_from_output("0.0.0.0:49153\n"), Ok(49153));
    assert_eq!(
        sshport_from_output("0.0.0.0:\n"),
        Err("SSH port not found: cannot parse integer from empty string".to_string())
    );
    assert_eq!(sshport_from_output("[::]:80"), Err("SSH port not found: cannot parse integer from empty string".to_string()));
    assert_eq!(sshport_from_output("h:8x:1"), Err("SSH port not found: invalid digit found in string".to_string()));
    assert_eq!(proxy_port("127.0.0.1:8080"), Ok(8080));
    assert_eq!(proxy_port("a:99999999999"), Err(IntErrorKind::PosOverflow));
}

#[test]
fn proxy_commands() {
    let cargs = vec!["rrhttp".to_string(), "c.yaml".to_string()];
    assert_eq!(proxy_command(&cargs).unwrap(), ("rrhttp".to_string(), vec!["c.yaml".to_string()]));
    assert_eq!(proxy_command(&vec!["nginx".to_string()]).unwrap_err(), "only rrhttp proxy supported");
}

#[test]
fn tunnel_command() {
    let ti = TunnelInfo { hostkey: "k".into(), ipv4: "1.2.3.4".into(), port: 22, thport: 2210, thuser: "tu".into() };
    assert_eq!(
        tunnel_args("127.0.0.1", 49153, "/k/tun", &ti),
        vec![
            "-o", "ServerAliveInterval=10", "-o", "StrictHostKeyChecking=no", "-o", "ExitOnForwardFailure=yes",
            "-T", "-N", "-R", ":2210:127.0.0.1:49153", "-i", "/k/tun", "-p", "2210", "tu@1.2.3.4"
        ]
    );
}

#[test]
fn exit_codes() {
    assert_eq!(exit_code_string(Some(-1)), "Some(-1)");
    assert_eq!(exit_code_string(None), "None");
    assert_eq!(remove_failed_message(CProvider::DockerRootless, Some(125)), "exit code from docker: Some(125)");
}

#[test]
fn script_helpers() {
    assert_eq!(shell_args("ls"), vec!["-c", "ls"]);
    assert_eq!(script_failure("ls", "exit status: 2"), "`ls` failed: exit status: 2");
    assert_eq!(monitor_failure("ls", "exit status: 2"), "monitor: `ls` failed: exit status: 2");
}
