//! How an instance is started and removed: the commands given to the
//! container provider, the SSH tunnel, and the reading of what they print.
use vstd::prelude::*;
use crate::control::TunnelInfo;
use crate::mgmt::{CProvider, WDeployment, strs};
use crate::numbers::{decimal, signed_decimal, u64_to_string, i64_to_string, IntErrorKind, parse_u32, parse_int_spec};
use crate::text::{owned, concat2, concat3, chars_of, trim, trimmed, find_char, first_index, lemma_first_index, slice_chars};

verus! {

/// Providers that run the instance in a container of their own.
pub open spec fn is_container(p: CProvider) -> bool {
    p == CProvider::Docker || p == CProvider::DockerRootless || p == CProvider::Podman
}

/// Providers whose containers publish the SSH port on the loopback address.
pub open spec fn publishes_port(p: CProvider) -> bool {
    p == CProvider::Podman || p == CProvider::DockerRootless
}

/// The executable of a container provider.
pub open spec fn execname(p: CProvider) -> Seq<char> {
    match p {
        CProvider::DockerRootless => "docker"@,
        _ => p.spec_name(),
    }
}

/// The arguments of the provider's `run` command for a new container named
/// `name`.
pub open spec fn run_args_spec(wd: WDeployment, name: Seq<char>, image: Seq<char>, debug_log: bool) -> Seq<
    Seq<char>,
> {
    seq![
        "run"@,
        "-d"@,
        "-h"@,
        name,
        "--name"@,
        name,
        "--device=/dev/net/tun:/dev/net/tun"@,
        "--cap-add=NET_ADMIN"@,
    ] + (if wd.cprovider != CProvider::Docker {
        seq!["--cap-add=CAP_SYS_CHROOT"@]
    } else {
        seq![]
    }) + strs(wd.cargs@) + (if publishes_port(wd.cprovider) {
        seq!["-p"@, "127.0.0.1::22"@]
    } else {
        seq![]
    }) + (if debug_log {
        seq!["-e"@, "HARDSHARE_LOG=1"@]
    } else {
        seq![]
    }) + seq![image]
}

/// Podman and rootless Docker containers publish their SSH port on the
/// loopback address: the `run` arguments carry `-p 127.0.0.1::22` right
/// after the deployment's own arguments, and the instance is reached at
/// 127.0.0.1 (see `launch_method`).  A Docker container does neither.
pub proof fn law_loopback_publication(wd: WDeployment, name: Seq<char>, image: Seq<char>, debug_log: bool)
    ensures
        wd.cprovider == CProvider::Podman || wd.cprovider == CProvider::DockerRootless ==> {
            let a = run_args_spec(wd, name, image, debug_log);
            let k = 9 + wd.cargs@.len() as int;
            &&& publishes_port(wd.cprovider)
            &&& a[k] == "-p"@
            &&& a[k + 1] == "127.0.0.1::22"@
            &&& a.last() == image
        },
        wd.cprovider == CProvider::Docker ==> !publishes_port(wd.cprovider),
{
    if wd.cprovider == CProvider::Podman || wd.cprovider == CProvider::DockerRootless {
        let head = seq![
            "run"@,
            "-d"@,
            "-h"@,
            name,
            "--name"@,
            name,
            "--device=/dev/net/tun:/dev/net/tun"@,
            "--cap-add=NET_ADMIN"@,
        ] + seq!["--cap-add=CAP_SYS_CHROOT"@] + strs(wd.cargs@);
        assert(head.len() == 9 + wd.cargs@.len());
        let a = run_args_spec(wd, name, image, debug_log);
        let tail = (if debug_log {
            seq!["-e"@, "HARDSHARE_LOG=1"@]
        } else {
            seq![]
        }) + seq![image];
        assert(a =~= head + seq!["-p"@, "127.0.0.1::22"@] + tail);
    }
}

/// How an instance of a deployment is started.
#[derive(Debug)]
pub enum LaunchMethod {
    /// Run a container: the provider's executable, the arguments of `run`,
    /// and the address and SSH port where they are known in advance (else
    /// the provider is asked).
    Container { execname: String, run_args: Vec<String>, ip: Option<String>, port: Option<u32> },
    /// Start the deployment's proxy command.
    Proxy,
}

fn push_str(v: &mut Vec<String>, s: &str)
    ensures
        strs(final(v)@) == strs(old(v)@).push(s@),
{
    let ghost before = v@;
    v.push(owned(s));
    assert(strs(v@) =~= strs(before).push(s@));
}

/// How to start an instance named `name` of `wd`; `debug_log` asks the
/// container to log.
pub fn launch_method(wd: &WDeployment, name: &str, debug_log: bool) -> (r: Result<LaunchMethod, String>)
    ensures
        match wd.cprovider {
            CProvider::Lxd => r matches Err(e) && e@ == "lxd cprovider not implemented yet"@,
            CProvider::Proxy => r matches Ok(LaunchMethod::Proxy),
            _ => match wd.image {
                None => r matches Err(e) && e@ == "no image in configuration"@,
                Some(img) => r matches Ok(LaunchMethod::Container { execname: x, run_args: a, ip, port })
                    && x@ == execname(wd.cprovider) && strs(a@) == run_args_spec(
                    *wd,
                    name@,
                    img@,
                    debug_log,
                ) && (if publishes_port(wd.cprovider) {
                    ip matches Some(i) && i@ == "127.0.0.1"@
                } else {
                    ip is None
                }) && (if wd.cprovider == CProvider::Docker {
                    port == Some(22u32)
                } else {
                    port is None
                }),
            },
        },
{
    match wd.cprovider {
        CProvider::Lxd => {
            return Err(owned("lxd cprovider not implemented yet"));
        },
        CProvider::Proxy => {
            return Ok(LaunchMethod::Proxy);
        },
        _ => {},
    }
    let image = match &wd.image {
        Some(img) => img,
        None => {
            return Err(owned("no image in configuration"));
        },
    };
    let x = match wd.cprovider.get_execname() {
        Ok(x) => x,
        Err(_) => {
            return Err(owned("no image in configuration"));
        },
    };
    let mut a: Vec<String> = Vec::new();
    push_str(&mut a, "run");
    push_str(&mut a, "-d");
    push_str(&mut a, "-h");
    push_str(&mut a, name);
    push_str(&mut a, "--name");
    push_str(&mut a, name);
    push_str(&mut a, "--device=/dev/net/tun:/dev/net/tun");
    push_str(&mut a, "--cap-add=NET_ADMIN");
    let ghost base = strs(a@);
    let not_docker = match wd.cprovider {
        CProvider::Docker => false,
        _ => true,
    };
    if not_docker {
        push_str(&mut a, "--cap-add=CAP_SYS_CHROOT");
    }
    let ghost with_cap = strs(a@);
    let mut i: usize = 0;
    while i < wd.cargs.len()
        invariant
            i <= wd.cargs@.len(),
            strs(a@) == with_cap + strs(wd.cargs@.subrange(0, i as int)),
        decreases wd.cargs@.len() - i,
    {
        push_str(&mut a, wd.cargs[i].as_str());
        i = i + 1;
        assert(strs(wd.cargs@.subrange(0, i as int)) =~= strs(wd.cargs@.subrange(0, i - 1)).push(
            wd.cargs@[i - 1]@,
        ));
    }
    assert(wd.cargs@.subrange(0, wd.cargs@.len() as int) =~= wd.cargs@);
    let ghost with_cargs = strs(a@);
    let publishes = match wd.cprovider {
        CProvider::Podman | CProvider::DockerRootless => true,
        _ => false,
    };
    if publishes {
        push_str(&mut a, "-p");
        push_str(&mut a, "127.0.0.1::22");
    }
    let ghost with_port = strs(a@);
    if debug_log {
        push_str(&mut a, "-e");
        push_str(&mut a, "HARDSHARE_LOG=1");
    }
    let ghost with_log = strs(a@);
    push_str(&mut a, image.as_str());
    assert(strs(a@) =~= run_args_spec(*wd, name@, image@, debug_log));
    let ip = if publishes {
        Some(owned("127.0.0.1"))
    } else {
        None
    };
    let port: Option<u32> = match wd.cprovider {
        CProvider::Docker => Some(22),
        _ => None,
    };
    Ok(LaunchMethod::Container { execname: x, run_args: a, ip, port })
}

/// The path, inside a container, of the SSH keys allowed to log in.
pub open spec fn authorized_keys() -> Seq<char> {
    "/root/.ssh/authorized_keys"@
}

/// The provider commands that install the public key at `key_file` as the
/// only key allowed to log in to container `name`: make the directory, copy
/// the file, give it to root.
pub open spec fn key_setup_spec(name: Seq<char>, key_file: Seq<char>) -> Seq<Seq<Seq<char>>> {
    seq![
        seq!["exec"@, name, "/bin/mkdir"@, "-p"@, "/root/.ssh"@],
        seq!["cp"@, key_file, name + ":"@ + authorized_keys()],
        seq!["exec"@, name, "/bin/chown"@, "0:0"@, authorized_keys()],
    ]
}

pub open spec fn commands_view(v: Seq<Vec<String>>) -> Seq<Seq<Seq<char>>> {
    v.map_values(|c: Vec<String>| strs(c@))
}

pub fn key_setup_commands(name: &str, key_file: &str) -> (r: Vec<Vec<String>>)
    ensures
        commands_view(r@) == key_setup_spec(name@, key_file@),
{
    let mut mkdir: Vec<String> = Vec::new();
    push_str(&mut mkdir, "exec");
    push_str(&mut mkdir, name);
    push_str(&mut mkdir, "/bin/mkdir");
    push_str(&mut mkdir, "-p");
    push_str(&mut mkdir, "/root/.ssh");
    let mut cp: Vec<String> = Vec::new();
    push_str(&mut cp, "cp");
    push_str(&mut cp, key_file);
    let target = concat3(name, ":", "/root/.ssh/authorized_keys");
    push_str(&mut cp, target.as_str());
    let mut chown: Vec<String> = Vec::new();
    push_str(&mut chown, "exec");
    push_str(&mut chown, name);
    push_str(&mut chown, "/bin/chown");
    push_str(&mut chown, "0:0");
    push_str(&mut chown, "/root/.ssh/authorized_keys");
    assert(strs(mkdir@) =~= key_setup_spec(name@, key_file@)[0]);
    assert(strs(cp@) =~= key_setup_spec(name@, key_file@)[1]);
    assert(strs(chown@) =~= key_setup_spec(name@, key_file@)[2]);
    let mut r: Vec<Vec<String>> = Vec::new();
    r.push(mkdir);
    r.push(cp);
    r.push(chown);
    assert(commands_view(r@) =~= key_setup_spec(name@, key_file@));
    r
}

/// The provider command that runs `script` with `/bin/sh` inside container
/// `name`.
pub open spec fn exec_script_spec(name: Seq<char>, script: Seq<char>) -> Seq<Seq<char>> {
    seq!["exec"@, name, "/bin/sh"@, "-c"@, script]
}

pub fn exec_script_args(name: &str, script: &str) -> (r: Vec<String>)
    ensures
        strs(r@) == exec_script_spec(name@, script@),
{
    let mut a: Vec<String> = Vec::new();
    push_str(&mut a, "exec");
    push_str(&mut a, name);
    push_str(&mut a, "/bin/sh");
    push_str(&mut a, "-c");
    push_str(&mut a, script);
    assert(strs(a@) =~= exec_script_spec(name@, script@));
    a
}

/// The shell script that clones a repository into `$HOME/m`.
pub open spec fn clone_script_spec(url: Seq<char>) -> Seq<char> {
    "cd $HOME && git clone "@ + url + " m"@
}

pub fn clone_script(url: &str) -> (s: String)
    ensures
        s@ == clone_script_spec(url@),
{
    concat3("cd $HOME && git clone ", url, " m")
}

/// The shell script that runs `path` in the cloned repository.
pub open spec fn repo_run_script_spec(path: Seq<char>) -> Seq<char> {
    "cd $HOME/m && "@ + path
}

pub fn repo_run_script(path: &str) -> (s: String)
    ensures
        s@ == repo_run_script_spec(path@),
{
    concat2("cd $HOME/m && ", path)
}

/// The provider command that copies the container's public host key to the
/// working directory.
pub open spec fn hostkey_copy_spec(name: Seq<char>) -> Seq<Seq<char>> {
    seq!["cp"@, name + ":/etc/ssh/ssh_host_ecdsa_key.pub"@, "."@]
}

pub fn hostkey_copy_args(name: &str) -> (r: Vec<String>)
    ensures
        strs(r@) == hostkey_copy_spec(name@),
{
    let mut a: Vec<String> = Vec::new();
    push_str(&mut a, "cp");
    let src = concat2(name, ":/etc/ssh/ssh_host_ecdsa_key.pub");
    push_str(&mut a, src.as_str());
    push_str(&mut a, ".");
    assert(strs(a@) =~= hostkey_copy_spec(name@));
    a
}

/// The text of the error of reading a decimal integer.
pub open spec fn int_error_text(e: IntErrorKind) -> Seq<char> {
    match e {
        IntErrorKind::Empty => "cannot parse integer from empty string"@,
        IntErrorKind::InvalidDigit => "invalid digit found in string"@,
        IntErrorKind::PosOverflow => "number too large to fit in target type"@,
        IntErrorKind::NegOverflow => "number too small to fit in target type"@,
    }
}

/// The text after the first `:` and before the next one, if any.
pub open spec fn second_field(s: Seq<char>) -> Seq<char>
    recommends
        first_index(s, ':') is Some,
{
    let i = first_index(s, ':')->Some_0;
    let rest = s.subrange(i + 1, s.len() as int);
    match first_index(rest, ':') {
        Some(j) => rest.subrange(0, j),
        None => rest,
    }
}

fn second_field_of(v: &[char]) -> (r: Vec<char>)
    requires
        first_index(v@, ':') is Some,
    ensures
        r@ == second_field(v@),
{
    proof {
        lemma_first_index(v@, ':');
    }
    let i = match find_char(v, ':') {
        Some(i) => i,
        None => {
            return Vec::new();
        },
    };
    let n = v.len();
    assert(first_index(v@, ':') == Some(i as int));
    assert(i < n);
    let rest = slice_chars(v, i + 1, n);
    proof {
        lemma_first_index(rest@, ':');
    }
    match find_char(rest.as_slice(), ':') {
        Some(j) => slice_chars(rest.as_slice(), 0, j),
        None => rest,
    }
}

/// The SSH port that `<provider> port <name> 22` printed, as
/// `address:port`.
pub open spec fn sshport_spec(out: Seq<char>) -> Result<u32, Seq<char>> {
    match parse_int_spec(second_field(trimmed(out)), false, 0, u32::MAX as int) {
        Ok(n) => Ok(n as u32),
        Err(e) => Err("SSH port not found: "@ + int_error_text(e)),
    }
}

pub fn sshport_from_output(out: &str) -> (r: Result<u32, String>)
    requires
        first_index(trimmed(out@), ':') is Some,
    ensures
        match r {
            Ok(n) => sshport_spec(out@) == Ok::<u32, Seq<char>>(n),
            Err(e) => sshport_spec(out@) == Err::<u32, Seq<char>>(e@),
        },
{
    let v = chars_of(out);
    let t = trim(v.as_slice());
    let f = second_field_of(t.as_slice());
    match parse_u32(f.as_slice()) {
        Ok(n) => Ok(n),
        Err(e) => Err(concat2("SSH port not found: ", e.description())),
    }
}

/// The port that the proxy announced on its first line, as
/// `address:port`.
pub open spec fn proxy_port_spec(line: Seq<char>) -> Result<u32, IntErrorKind> {
    match parse_int_spec(second_field(line), false, 0, u32::MAX as int) {
        Ok(n) => Ok(n as u32),
        Err(e) => Err(e),
    }
}

pub fn proxy_port(line: &str) -> (r: Result<u32, IntErrorKind>)
    requires
        first_index(line@, ':') is Some,
    ensures
        match r {
            Ok(n) => proxy_port_spec(line@) == Ok::<u32, IntErrorKind>(n),
            Err(e) => proxy_port_spec(line@) == Err::<u32, IntErrorKind>(e),
        },
{
    let v = chars_of(line);
    let f = second_field_of(v.as_slice());
    parse_u32(f.as_slice())
}

/// The command that starts a proxy: only `rrhttp` is supported.
pub fn proxy_command(cargs: &Vec<String>) -> (r: Result<(String, Vec<String>), String>)
    requires
        cargs@.len() > 0,
    ensures
        cargs@[0]@ == "rrhttp"@ ==> (r matches Ok((p, a)) && p@ == "rrhttp"@ && strs(a@) == strs(
            cargs@,
        ).subrange(1, cargs@.len() as int)),
        cargs@[0]@ != "rrhttp"@ ==> (r matches Err(e) && e@ == "only rrhttp proxy supported"@),
{
    if !crate::text::str_eq(cargs[0].as_str(), "rrhttp") {
        return Err(owned("only rrhttp proxy supported"));
    }
    let mut a: Vec<String> = Vec::new();
    let mut i: usize = 1;
    while i < cargs.len()
        invariant
            1 <= i <= cargs@.len(),
            strs(a@) == strs(cargs@).subrange(1, i as int),
        decreases cargs@.len() - i,
    {
        push_str(&mut a, cargs[i].as_str());
        i = i + 1;
        assert(strs(cargs@).subrange(1, i as int) =~= strs(cargs@).subrange(1, i - 1).push(
            cargs@[i - 1]@,
        ));
    }
    Ok((owned("rrhttp"), a))
}

/// The arguments of `ssh` that forward port 2210 of the server's tunnel
/// host to the instance at `ip:port`, logging in with the key at `key_path`.
pub open spec fn tunnel_args_spec(ip: Seq<char>, port: u32, key_path: Seq<char>, ti: TunnelInfo) -> Seq<
    Seq<char>,
> {
    seq![
        "-o"@,
        "ServerAliveInterval=10"@,
        "-o"@,
        "StrictHostKeyChecking=no"@,
        "-o"@,
        "ExitOnForwardFailure=yes"@,
        "-T"@,
        "-N"@,
        "-R"@,
        ":2210:"@ + ip + ":"@ + decimal(port as nat),
        "-i"@,
        key_path,
        "-p"@,
        decimal(ti.thport as nat),
        ti.thuser@ + "@"@ + ti.ipv4@,
    ]
}

pub fn tunnel_args(ip: &str, port: u32, key_path: &str, ti: &TunnelInfo) -> (r: Vec<String>)
    ensures
        strs(r@) == tunnel_args_spec(ip@, port, key_path@, *ti),
{
    let mut a: Vec<String> = Vec::new();
    push_str(&mut a, "-o");
    push_str(&mut a, "ServerAliveInterval=10");
    push_str(&mut a, "-o");
    push_str(&mut a, "StrictHostKeyChecking=no");
    push_str(&mut a, "-o");
    push_str(&mut a, "ExitOnForwardFailure=yes");
    push_str(&mut a, "-T");
    push_str(&mut a, "-N");
    push_str(&mut a, "-R");
    let p = u64_to_string(port as u64);
    let head = concat3(":2210:", ip, ":");
    let fwd = concat2(head.as_str(), p.as_str());
    push_str(&mut a, fwd.as_str());
    push_str(&mut a, "-i");
    push_str(&mut a, key_path);
    push_str(&mut a, "-p");
    let tp = u64_to_string(ti.thport as u64);
    push_str(&mut a, tp.as_str());
    let login = concat3(ti.thuser.as_str(), "@", ti.ipv4.as_str());
    push_str(&mut a, login.as_str());
    assert(strs(a@) =~= tunnel_args_spec(ip@, port, key_path@, *ti));
    a
}

/// The command that removes container `name`, for providers that run
/// containers.
pub open spec fn remove_args_spec(name: Seq<char>) -> Seq<Seq<char>> {
    seq!["rm"@, "-f"@, name]
}

pub fn remove_args(name: &str) -> (r: Vec<String>)
    ensures
        strs(r@) == remove_args_spec(name@),
{
    let mut a: Vec<String> = Vec::new();
    push_str(&mut a, "rm");
    push_str(&mut a, "-f");
    push_str(&mut a, name);
    assert(strs(a@) =~= remove_args_spec(name@));
    a
}

/// `Option<i32>` as `{:?}` prints it: `Some(n)` or `None`.
pub open spec fn exit_code_text(code: Option<i32>) -> Seq<char> {
    match code {
        Some(c) => "Some("@ + signed_decimal(c as int) + ")"@,
        None => "None"@,
    }
}

pub fn exit_code_string(code: Option<i32>) -> (s: String)
    ensures
        s@ == exit_code_text(code),
{
    match code {
        Some(c) => {
            let d = i64_to_string(c as i64);
            concat3("Some(", d.as_str(), ")")
        },
        None => owned("None"),
    }
}

/// The error when removing a container exits with a failure.
pub open spec fn remove_failed_spec(p: CProvider, code: Option<i32>) -> Seq<char> {
    "exit code from "@ + execname(p) + ": "@ + exit_code_text(code)
}

pub fn remove_failed_message(p: CProvider, code: Option<i32>) -> (s: String)
    requires
        is_container(p),
    ensures
        s@ == remove_failed_spec(p, code),
{
    let x = match p.get_execname() {
        Ok(x) => x,
        Err(_) => owned(""),
    };
    let c = exit_code_string(code);
    concat3(concat2("exit code from ", x.as_str()).as_str(), ": ", c.as_str())
}

/// The arguments of `/bin/sh` that run `script` (for the programs run at
/// termination, and for a monitor).
pub fn shell_args(script: &str) -> (r: Vec<String>)
    ensures
        strs(r@) == seq!["-c"@, script@],
{
    let mut a: Vec<String> = Vec::new();
    push_str(&mut a, "-c");
    push_str(&mut a, script);
    assert(strs(a@) =~= seq!["-c"@, script@]);
    a
}

/// The error when a script fails; `detail` is how it failed.
pub open spec fn script_failure_spec(script: Seq<char>, detail: Seq<char>) -> Seq<char> {
    "`"@ + script + "` failed: "@ + detail
}

pub fn script_failure(script: &str, detail: &str) -> (s: String)
    ensures
        s@ == script_failure_spec(script@, detail@),
{
    let head = concat3("`", script, "` failed: ");
    concat2(head.as_str(), detail)
}

/// The error when a deployment's monitor fails.
pub fn monitor_failure(script: &str, detail: &str) -> (s: String)
    ensures
        s@ == "monitor: "@ + script_failure_spec(script@, detail@),
{
    let f = script_failure(script, detail);
    concat2("monitor: ", f.as_str())
}

} // verus!
