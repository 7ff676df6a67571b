//! The decisions of the command-line interface: errors with exit codes, the
//! output format, and the changes that `hardshare config` makes to a
//! deployment or to the configuration.
use vstd::prelude::*;
use crate::mgmt::{CProvider, Config, WDeployment, WDeploymentView, opt_str, strs, provider_named};
use crate::text::{owned, concat2, concat3, str_eq};

verus! {

/// Error of a subcommand: a message, if any, and the exit code.
#[derive(Debug)]
pub struct CliError {
    pub msg: Option<String>,
    pub exitcode: i32,
}

impl CliError {
    pub fn new(msg: &str, exitcode: i32) -> (r: Result<(), CliError>)
        ensures
            r matches Err(e) && opt_str(e.msg) == Some(msg@) && e.exitcode == exitcode,
    {
        Err(CliError { msg: Some(owned(msg)), exitcode })
    }

    /// An error that carries the text of another error.
    pub fn new_std(err: &str, exitcode: i32) -> (r: Result<(), CliError>)
        ensures
            r matches Err(e) && opt_str(e.msg) == Some(err@) && e.exitcode == exitcode,
    {
        Err(CliError { msg: Some(owned(err)), exitcode })
    }

    /// An error that carries the text of an I/O error.
    pub fn new_stdio(err: &str, exitcode: i32) -> (r: Result<(), CliError>)
        ensures
            r matches Err(e) && opt_str(e.msg) == Some(err@) && e.exitcode == exitcode,
    {
        Err(CliError { msg: Some(owned(err)), exitcode })
    }

    /// An error with an exit code only.
    pub fn newrc(exitcode: i32) -> (r: Result<(), CliError>)
        ensures
            r matches Err(e) && e.msg is None && e.exitcode == exitcode,
    {
        Err(CliError { msg: None, exitcode })
    }

    /// The text of the error (its `Display`): the message, or nothing.
    pub fn text(&self) -> (s: String)
        ensures
            s@ == match self.msg {
                Some(m) => m@,
                None => Seq::<char>::empty(),
            },
    {
        match &self.msg {
            Some(m) => m.clone(),
            None => String::new(),
        }
    }
}

/// What `str::to_lowercase` gives for a text.
pub uninterp spec fn lowercase(s: Seq<char>) -> Seq<char>;

/// An ASCII character in lower case: `A`-`Z` become `a`-`z`, the others stay.
pub open spec fn ascii_lower(c: char) -> char {
    if 'A' <= c && c <= 'Z' {
        ((c as u32) + 32) as char
    } else {
        c
    }
}

/// Every character is ASCII.
pub open spec fn all_ascii(s: Seq<char>) -> bool {
    forall|i: int| 0 <= i < s.len() ==> (s[i] as u32) < 128
}

/// Wraps `str::to_lowercase`, the Unicode lower-case mapping.  Claimed: the
/// result is a function of the text alone, and an ASCII text is lower-cased
/// letter by letter (the ASCII letters are the only ASCII characters with a
/// lower-case mapping other than themselves, each to one character).
#[verifier::external_body]
pub(crate) fn to_lowercase(s: &str) -> (r: String)
    ensures
        r@ == lowercase(s@),
        all_ascii(s@) ==> r@ == s@.map_values(|c: char| ascii_lower(c)),
{
    s.to_lowercase()
}

#[derive(Debug, Clone, Copy, PartialEq, Eq, Structural)]
pub enum PrintingFormat {
    Default,
    Yaml,
    Json,
}

/// The output format that `--format` names, in any letter case.
pub fn parse_format(given: &str) -> (r: Result<PrintingFormat, CliError>)
    ensures
        lowercase(given@) == "json"@ ==> r == Ok::<PrintingFormat, CliError>(PrintingFormat::Json),
        lowercase(given@) == "yaml"@ && lowercase(given@) != "json"@ ==> r == Ok::<
            PrintingFormat,
            CliError,
        >(PrintingFormat::Yaml),
        lowercase(given@) != "json"@ && lowercase(given@) != "yaml"@ ==> (r matches Err(e)
            && opt_str(e.msg) == Some("unrecognized format: "@ + given@) && e.exitcode == 1),
{
    let lower = to_lowercase(given);
    if str_eq(lower.as_str(), "json") {
        Ok(PrintingFormat::Json)
    } else if str_eq(lower.as_str(), "yaml") {
        Ok(PrintingFormat::Yaml)
    } else {
        Err(CliError { msg: Some(concat2("unrecognized format: ", given)), exitcode: 1 })
    }
}

/// The image that new container deployments use when none is given.
pub open spec fn default_image() -> Seq<char> {
    "rerobots/hs-generic"@
}

/// A deployment after switching to provider `p`: a proxy has no image, a
/// container provider gets the default image if it had none.
pub open spec fn with_provider(a: WDeploymentView, p: CProvider) -> WDeploymentView {
    WDeploymentView {
        cprovider: p,
        image: if p == CProvider::Proxy {
            None
        } else {
            match a.image {
                Some(i) => Some(i),
                None => Some(default_image()),
            }
        },
        ..a
    }
}

/// Switches the container provider (`hardshare config --cprovider`).
/// `Ok(true)`: the deployment changed; `Ok(false)`: it already used that
/// provider.
pub fn assign_cprovider(wd: &mut WDeployment, cprovider: &str) -> (r: Result<bool, CliError>)
    ensures
        match provider_named(lowercase(cprovider@)) {
            Some(p) => if p == old(wd).cprovider {
                r matches Ok(false) && final(wd)@ == old(wd)@
            } else {
                r matches Ok(true) && final(wd)@ == with_provider(old(wd)@, p)
            },
            None => r matches Err(e) && opt_str(e.msg) == Some(
                "cprovider must be one of the following: lxd, docker, podman, proxy"@,
            ) && e.exitcode == 1 && final(wd)@ == old(wd)@,
        },
{
    let selected = to_lowercase(cprovider);
    let p = match CProvider::from_name(selected.as_str()) {
        Ok(p) => p,
        Err(_) => {
            return Err(
                CliError {
                    msg: Some(owned("cprovider must be one of the following: lxd, docker, podman, proxy")),
                    exitcode: 1,
                },
            );
        },
    };
    if p == wd.cprovider {
        return Ok(false);
    }
    wd.cprovider = p;
    if p == CProvider::Proxy {
        wd.image = None;
    } else if wd.image.is_none() {
        wd.image = Some(owned("rerobots/hs-generic"));
    }
    Ok(true)
}

/// Switching to a provider a second time changes nothing.
pub proof fn law_assign_cprovider_idempotent(a: WDeploymentView, p: CProvider)
    ensures
        with_provider(with_provider(a, p), p) == with_provider(a, p),
{
}

/// The command that checks that the provider knows an image
/// (`hardshare config --assign-image`), or why images cannot be assigned.
pub fn image_check_argv(wd: &WDeployment, image: &str) -> (r: Result<Vec<String>, CliError>)
    ensures
        match wd.cprovider {
            CProvider::Podman => r matches Ok(v) && strs(v@) == seq![
                "podman"@,
                "image"@,
                "exists"@,
                image@,
            ],
            CProvider::Docker => r matches Ok(v) && strs(v@) == seq![
                "docker"@,
                "image"@,
                "inspect"@,
                image@,
            ],
            CProvider::Lxd => r matches Ok(v) && strs(v@) == seq!["lxc"@, "image"@, "show"@, image@],
            _ => r matches Err(e) && opt_str(e.msg) == Some(
                "cannot --assign-image for cprovider `"@ + wd.cprovider.spec_name() + "`"@,
            ) && e.exitcode == 1,
        },
{
    let (prog, sub) = match wd.cprovider {
        CProvider::Podman => ("podman", "exists"),
        CProvider::Docker => ("docker", "inspect"),
        CProvider::Lxd => ("lxc", "show"),
        _ => {
            let msg = concat3("cannot --assign-image for cprovider `", wd.cprovider.name(), "`");
            return Err(CliError { msg: Some(msg), exitcode: 1 });
        },
    };
    let mut v: Vec<String> = Vec::new();
    v.push(owned(prog));
    v.push(owned("image"));
    v.push(owned(sub));
    v.push(owned(image));
    assert(strs(v@) =~= seq![prog@, "image"@, sub@, image@]);
    Ok(v)
}

/// Sets the image of a deployment.
pub fn assign_image(wd: &mut WDeployment, image: &str)
    ensures
        final(wd)@ == (WDeploymentView { image: Some(image@), ..old(wd)@ }),
{
    wd.image = Some(owned(image));
}

/// The container argument that passes a device through.
pub open spec fn device_carg(path: Seq<char>) -> Seq<char> {
    "--device="@ + path + ":"@ + path
}

pub fn device_arg(path: &str) -> (s: String)
    ensures
        s@ == device_carg(path@),
{
    let mut s = concat3("--device=", path, ":");
    s.append(path);
    s
}

/// Index of the first occurrence of `x` in `s`.
pub open spec fn first_pos(s: Seq<Seq<char>>, x: Seq<char>) -> Option<int>
    decreases s.len(),
{
    if s.len() == 0 {
        None
    } else if s[0] == x {
        Some(0)
    } else {
        match first_pos(s.drop_first(), x) {
            Some(i) => Some(i + 1),
            None => None,
        }
    }
}

pub proof fn lemma_first_pos(s: Seq<Seq<char>>, x: Seq<char>)
    ensures
        match first_pos(s, x) {
            Some(i) => 0 <= i < s.len() && s[i] == x && forall|j: int| 0 <= j < i ==> s[j] != x,
            None => !s.contains(x),
        },
    decreases s.len(),
{
    if s.len() > 0 && s[0] != x {
        lemma_first_pos(s.drop_first(), x);
        assert forall|j: int| 1 <= j < s.len() implies s[j] == s.drop_first()[j - 1] by {}
        if s.contains(x) {
            let k = choose|k: int| 0 <= k < s.len() && s[k] == x;
            assert(s.drop_first()[k - 1] == x);
        }
    }
}

/// Position of `x` in a list of strings.
pub fn position(v: &Vec<String>, x: &str) -> (r: Option<usize>)
    ensures
        match r {
            Some(k) => first_pos(strs(v@), x@) == Some(k as int) && k < v@.len(),
            None => first_pos(strs(v@), x@) is None,
        },
{
    proof {
        lemma_first_pos(strs(v@), x@);
    }
    let mut i: usize = 0;
    while i < v.len()
        invariant
            i <= v@.len(),
            forall|j: int| 0 <= j < i ==> v@[j]@ != x@,
            match first_pos(strs(v@), x@) {
                Some(k) => 0 <= k < v@.len() && strs(v@)[k] == x@ && forall|j: int|
                    0 <= j < k ==> strs(v@)[j] != x@,
                None => !strs(v@).contains(x@),
            },
        decreases v@.len() - i,
    {
        if str_eq(v[i].as_str(), x) {
            proof {
                let k = first_pos(strs(v@), x@);
                if k is None {
                    assert(strs(v@)[i as int] == x@);
                } else {
                    assert(strs(v@)[i as int] == x@);
                    if k->0 > i {
                        assert(strs(v@)[i as int] != x@);
                    }
                }
            }
            return Some(i);
        }
        i = i + 1;
    }
    proof {
        if let Some(k) = first_pos(strs(v@), x@) {
            assert(v@[k]@ == x@);
        }
    }
    None
}

/// Whether a provider runs containers that can be given devices.
pub open spec fn takes_devices(p: CProvider) -> bool {
    p == CProvider::Docker || p == CProvider::Podman
}

/// Passes a device into the containers of a deployment
/// (`hardshare config --add-raw-device`); the path is the canonical one.
pub fn add_raw_device(wd: &mut WDeployment, device_path: &str) -> (r: Result<(), CliError>)
    ensures
        !takes_devices(old(wd).cprovider) ==> (r matches Err(e) && opt_str(e.msg) == Some(
            "adding devices not supported by this cprovider"@,
        ) && e.exitcode == 1 && final(wd)@ == old(wd)@),
        takes_devices(old(wd).cprovider) && old(wd)@.cargs.contains(device_carg(device_path@))
            ==> (r matches Err(e) && opt_str(e.msg) == Some("device already added"@) && e.exitcode
            == 1 && final(wd)@ == old(wd)@),
        takes_devices(old(wd).cprovider) && !old(wd)@.cargs.contains(device_carg(device_path@))
            ==> r is Ok && final(wd)@ == (WDeploymentView {
                cargs: old(wd)@.cargs.push(device_carg(device_path@)),
                ..old(wd)@
            }),
{
    if wd.cprovider == CProvider::Docker || wd.cprovider == CProvider::Podman {
        let new_carg = device_arg(device_path);
        proof {
            lemma_first_pos(strs(wd.cargs@), new_carg@);
        }
        if position(&wd.cargs, new_carg.as_str()).is_some() {
            return Err(CliError { msg: Some(owned("device already added")), exitcode: 1 });
        }
        proof {
            lemma_first_pos(strs(wd.cargs@), new_carg@);
        }
        wd.cargs.push(new_carg);
        assert(strs(wd.cargs@) =~= strs(old(wd).cargs@).push(device_carg(device_path@)));
        Ok(())
    } else {
        Err(
            CliError {
                msg: Some(owned("adding devices not supported by this cprovider")),
                exitcode: 1,
            },
        )
    }
}

/// Stops passing a device into the containers of a deployment
/// (`hardshare config --rm-raw-device`).  The argument is looked up as given,
/// then with the canonical form of the path (`canonical`: the canonical path,
/// or the text of the error met while finding it).
pub fn remove_raw_device(
    wd: &mut WDeployment,
    device_path: &str,
    canonical: &Result<String, String>,
) -> (r: Result<(), CliError>)
    ensures
        !takes_devices(old(wd).cprovider) ==> (r matches Err(e) && opt_str(e.msg) == Some(
            "adding/removing devices not supported by this cprovider"@,
        ) && e.exitcode == 1 && final(wd)@ == old(wd)@),
        takes_devices(old(wd).cprovider) ==> match first_pos(
            old(wd)@.cargs,
            device_carg(device_path@),
        ) {
            Some(i) => r is Ok && final(wd)@ == (WDeploymentView {
                cargs: old(wd)@.cargs.remove(i),
                ..old(wd)@
            }),
            None => match canonical {
                Err(msg) => r matches Err(e) && opt_str(e.msg) == Some(msg@) && e.exitcode == 1
                    && final(wd)@ == old(wd)@,
                Ok(c) => match first_pos(old(wd)@.cargs, device_carg(c@)) {
                    Some(i) => r is Ok && final(wd)@ == (WDeploymentView {
                        cargs: old(wd)@.cargs.remove(i),
                        ..old(wd)@
                    }),
                    None => r matches Err(e) && opt_str(e.msg) == Some(
                        "device not previously added"@,
                    ) && e.exitcode == 1 && final(wd)@ == old(wd)@,
                },
            },
        },
{
    if !(wd.cprovider == CProvider::Docker || wd.cprovider == CProvider::Podman) {
        return Err(
            CliError {
                msg: Some(owned("adding/removing devices not supported by this cprovider")),
                exitcode: 1,
            },
        );
    }
    let carg = device_arg(device_path);
    let index = match position(&wd.cargs, carg.as_str()) {
        Some(i) => i,
        None => {
            let c = match canonical {
                Ok(c) => c,
                Err(msg) => {
                    return Err(CliError { msg: Some(msg.clone()), exitcode: 1 });
                },
            };
            let carg_c = device_arg(c.as_str());
            match position(&wd.cargs, carg_c.as_str()) {
                Some(i) => i,
                None => {
                    return Err(
                        CliError { msg: Some(owned("device not previously added")), exitcode: 1 },
                    );
                },
            }
        },
    };
    let ghost before = wd.cargs@;
    wd.cargs.remove(index);
    assert(strs(wd.cargs@) =~= strs(before).remove(index as int));
    Ok(())
}

/// Adds a program to a list of commands.
pub fn add_program(list: &mut Vec<String>, program: &str)
    ensures
        strs(final(list)@) == strs(old(list)@).push(program@),
{
    list.push(owned(program));
    assert(strs(list@) =~= strs(old(list)@).push(program@));
}

/// Removes the first occurrence of a program from a list of commands.
pub fn remove_program(list: &mut Vec<String>, program: &str) -> (r: Result<(), CliError>)
    ensures
        match first_pos(strs(old(list)@), program@) {
            Some(i) => r is Ok && strs(final(list)@) == strs(old(list)@).remove(i),
            None => r matches Err(e) && opt_str(e.msg) == Some("no matching program found"@)
                && e.exitcode == 1 && final(list)@ == old(list)@,
        },
{
    match position(list, program) {
        Some(i) => {
            let ghost before = list@;
            list.remove(i);
            assert(strs(list@) =~= strs(before).remove(i as int));
            Ok(())
        },
        None => Err(CliError { msg: Some(owned("no matching program found")), exitcode: 1 }),
    }
}

/// Adding a program that was not listed and then removing it gives back the
/// list.
pub proof fn law_add_remove_program(list: Seq<Seq<char>>, program: Seq<char>)
    requires
        !list.contains(program),
    ensures
        first_pos(list.push(program), program) == Some(list.len() as int),
        list.push(program).remove(list.len() as int) == list,
{
    lemma_first_pos(list.push(program), program);
    assert(list.push(program)[list.len() as int] == program);
    let i = first_pos(list.push(program), program)->0;
    if i < list.len() {
        assert(list.push(program)[i] == list[i]);
        assert(list[i] == program);
    }
    assert(list.push(program).remove(list.len() as int) =~= list);
}

/// Sets the default organization (`hardshare declare-org`); an empty name
/// clears it, any other name must be a known organization.
pub fn declare_default_org(config: &mut Config, org_name: Option<&str>) -> (r: Result<(), CliError>)
    ensures
        match org_name {
            None => r is Ok && final(config).default_org is None,
            Some(n) => if n@.len() == 0 {
                r is Ok && final(config).default_org is None
            } else if !strs(old(config).known_orgs@).contains(n@) {
                r matches Err(e) && opt_str(e.msg) == Some(
                    "unknown organization \""@ + n@ + "\""@,
                ) && e.exitcode == 1 && final(config).default_org == old(config).default_org
            } else {
                r is Ok && opt_str(final(config).default_org) == Some(n@)
            },
        },
        final(config).wdeployments == old(config).wdeployments,
        final(config).known_orgs == old(config).known_orgs,
        final(config).api_tokens == old(config).api_tokens,
        final(config).api_tokens_data == old(config).api_tokens_data,
        final(config).err_api_tokens == old(config).err_api_tokens,
        final(config).ssh_key == old(config).ssh_key,
        final(config).version == old(config).version,
{
    let org = match org_name {
        Some(n) => {
            if n.is_empty() {
                None
            } else {
                proof {
                    lemma_first_pos(strs(config.known_orgs@), n@);
                }
                if position(&config.known_orgs, n).is_none() {
                    let msg = concat3("unknown organization \"", n, "\"");
                    return Err(CliError { msg: Some(msg), exitcode: 1 });
                }
                Some(owned(n))
            }
        },
        None => None,
    };
    config.default_org = org;
    Ok(())
}

/// Records an organization as known, once (after a token is added).
pub fn note_org(config: &mut Config, org_name: &str)
    ensures
        strs(old(config).known_orgs@).contains(org_name@) ==> final(config).known_orgs
            == old(config).known_orgs,
        !strs(old(config).known_orgs@).contains(org_name@) ==> strs(final(config).known_orgs@)
            == strs(old(config).known_orgs@).push(org_name@),
        final(config).wdeployments == old(config).wdeployments,
        final(config).default_org == old(config).default_org,
        final(config).api_tokens == old(config).api_tokens,
        final(config).api_tokens_data == old(config).api_tokens_data,
        final(config).err_api_tokens == old(config).err_api_tokens,
        final(config).ssh_key == old(config).ssh_key,
        final(config).version == old(config).version,
{
    proof {
        lemma_first_pos(strs(config.known_orgs@), org_name@);
    }
    if position(&config.known_orgs, org_name).is_none() {
        config.known_orgs.push(owned(org_name));
        assert(strs(config.known_orgs@) =~= strs(old(config).known_orgs@).push(org_name@));
    }
}

/// An answer to "permit access by anyone?": yes, no, or ask again.  The
/// answer is the whole text read so far, trimmed and in lower case.
pub fn confirm_answer(text: &str) -> (r: (Option<bool>, String))
    ensures
        r.1@ == lowercase(crate::text::trimmed(text@)),
        r.0 == if r.1@ == "y"@ || r.1@ == "yes"@ {
            Some(true)
        } else if r.1@.len() == 0 || r.1@ == "n"@ || r.1@ == "no"@ {
            Some(false)
        } else {
            None::<bool>
        },
{
    let chars = crate::text::chars_of(text);
    let t = crate::text::string_of(crate::text::trim(chars.as_slice()).as_slice());
    let lower = to_lowercase(t.as_str());
    let a = lower.as_str();
    let verdict = if str_eq(a, "y") || str_eq(a, "yes") {
        Some(true)
    } else if a.is_empty() || str_eq(a, "n") || str_eq(a, "no") {
        Some(false)
    } else {
        None
    };
    (verdict, lower)
}

/// The add-on that `-a` names (`hardshare config-addon`).
pub fn addon_named(name: Option<&str>) -> (r: Result<crate::api::AddOn, CliError>)
    ensures
        match name {
            None => r matches Err(e) && opt_str(e.msg) == Some(
                "add-on must be specified with `-a`"@,
            ) && e.exitcode == 1,
            Some(n) => if n@ == "mistyproxy"@ {
                r matches Ok(crate::api::AddOn::MistyProxy)
            } else {
                r matches Err(e) && opt_str(e.msg) == Some("unknown add-on"@) && e.exitcode == 1
            },
        },
{
    match name {
        Some(n) => {
            if str_eq(n, "mistyproxy") {
                Ok(crate::api::AddOn::MistyProxy)
            } else {
                Err(CliError { msg: Some(owned("unknown add-on")), exitcode: 1 })
            }
        },
        None => Err(CliError { msg: Some(owned("add-on must be specified with `-a`")), exitcode: 1 }),
    }
}

/// The address where the daemon listens: the loopback address, at `port`.
pub fn daemon_address(port: &str) -> (s: String)
    ensures
        s@ == "127.0.0.1:"@ + port@,
{
    concat2("127.0.0.1:", port)
}

/// The comment shown with the access rules: the server's, or the reminder
/// that access is denied by default.
pub fn rules_comment(comment: Option<String>) -> (s: String)
    ensures
        s@ == match comment {
            Some(c) => c@,
            None => "Access is denied unless a rule explicitly permits it."@,
        },
{
    match comment {
        Some(c) => c,
        None => owned("Access is denied unless a rule explicitly permits it."),
    }
}

/// Adding a device and then removing it gives back the deployment, when the
/// device was not passed through before.
pub proof fn law_add_remove_device(a: WDeploymentView, path: Seq<char>)
    requires
        !a.cargs.contains(device_carg(path)),
    ensures
        ({
            let added = WDeploymentView { cargs: a.cargs.push(device_carg(path)), ..a };
            &&& first_pos(added.cargs, device_carg(path)) == Some(a.cargs.len() as int)
            &&& (WDeploymentView { cargs: added.cargs.remove(a.cargs.len() as int), ..added }) == a
        }),
{
    let c = a.cargs.push(device_carg(path));
    lemma_first_pos(c, device_carg(path));
    assert(c[a.cargs.len() as int] == device_carg(path));
    let i = first_pos(c, device_carg(path))->0;
    if i < a.cargs.len() {
        assert(c[i] == a.cargs[i]);
    }
    assert(c.remove(a.cargs.len() as int) =~= a.cargs);
}

} // verus!
