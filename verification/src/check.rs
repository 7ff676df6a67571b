//! The decisions of `hardshare check`: which command tests a container
//! provider, whether the server knows a deployment, and whether an API token
//! can manage it.
use vstd::prelude::*;
use crate::mgmt::{CProvider, Config, WDeployment, opt_str, strs};
use crate::strmap::StrMap;
use crate::text::{owned, concat2, concat3, str_eq};
use crate::container::{exit_code_text, exit_code_string, execname, is_container};

verus! {

/// Error of a check; it may have no description.
#[derive(Debug)]
pub struct Error {
    pub description: Option<String>,
}

impl Error {
    pub fn new(description: &str) -> (e: Box<Self>)
        ensures
            opt_str(e.description) == Some(description@),
    {
        Box::new(Error { description: Some(owned(description)) })
    }

    pub fn new_empty() -> (e: Box<Self>)
        ensures
            e.description is None,
    {
        Box::new(Error { description: None })
    }

    /// The text of the error (its `Display`): the description, or nothing.
    pub fn text(&self) -> (s: String)
        ensures
            s@ == match self.description {
                Some(d) => d@,
                None => Seq::<char>::empty(),
            },
    {
        match &self.description {
            Some(d) => d.clone(),
            None => String::new(),
        }
    }
}

/// The message when a proxy deployment has no command.
pub open spec fn proxy_unconfigured() -> Seq<char> {
    "Proxy is not configured. Try `hardshare config --assign-proxy-command`"@
}

/// The command that tests whether a deployment's provider is usable:
/// `podman version`, `docker version`, `lxc list -c n`, or, for a proxy, its
/// own command.
pub open spec fn check_command_spec(wd: WDeployment) -> Result<(Seq<char>, Seq<Seq<char>>), Seq<char>> {
    match wd.cprovider {
        CProvider::Podman => Ok(("podman"@, seq!["version"@])),
        CProvider::Docker | CProvider::DockerRootless => Ok(("docker"@, seq!["version"@])),
        CProvider::Lxd => Ok(("lxc"@, seq!["list"@, "-c"@, "n"@])),
        CProvider::Proxy => if wd.cargs@.len() == 0 {
            Err(proxy_unconfigured())
        } else {
            Ok((wd.cargs@[0]@, strs(wd.cargs@).subrange(1, wd.cargs@.len() as int)))
        },
    }
}

pub fn check_command(wd: &WDeployment) -> (r: Result<(String, Vec<String>), String>)
    ensures
        match check_command_spec(*wd) {
            Ok((prog, args)) => r matches Ok((p, a)) && p@ == prog && strs(a@) == args,
            Err(m) => r matches Err(e) && e@ == m,
        },
{
    match wd.cprovider {
        CProvider::Podman => {
            let mut a: Vec<String> = Vec::new();
            a.push(owned("version"));
            assert(strs(a@) =~= seq!["version"@]);
            Ok((owned("podman"), a))
        },
        CProvider::Docker | CProvider::DockerRootless => {
            let mut a: Vec<String> = Vec::new();
            a.push(owned("version"));
            assert(strs(a@) =~= seq!["version"@]);
            Ok((owned("docker"), a))
        },
        CProvider::Lxd => {
            let mut a: Vec<String> = Vec::new();
            a.push(owned("list"));
            a.push(owned("-c"));
            a.push(owned("n"));
            assert(strs(a@) =~= seq!["list"@, "-c"@, "n"@]);
            Ok((owned("lxc"), a))
        },
        CProvider::Proxy => {
            if wd.cargs.len() == 0 {
                return Err(
                    owned("Proxy is not configured. Try `hardshare config --assign-proxy-command`"),
                );
            }
            let mut a: Vec<String> = Vec::new();
            let mut i: usize = 1;
            while i < wd.cargs.len()
                invariant
                    1 <= i <= wd.cargs@.len(),
                    a@.len() == i - 1,
                    forall|j: int| 0 <= j < i - 1 ==> #[trigger] a@[j]@ == wd.cargs@[j + 1]@,
                decreases wd.cargs@.len() - i,
            {
                a.push(wd.cargs[i].clone());
                i = i + 1;
            }
            assert(strs(a@) =~= strs(wd.cargs@).subrange(1, wd.cargs@.len() as int));
            Ok((wd.cargs[0].clone(), a))
        },
    }
}

/// The provider of a container deployment is tested by running its own
/// executable (the one that runs its containers) with `version`: `podman`
/// for Podman, `docker` for Docker and rootless Docker.  LXD is tested with
/// `lxc list -c n`, and a proxy by its own command.
pub proof fn law_check_runs_provider_executable(wd: WDeployment)
    ensures
        is_container(wd.cprovider) ==> check_command_spec(wd) == Ok::<
            (Seq<char>, Seq<Seq<char>>),
            Seq<char>,
        >((execname(wd.cprovider), seq!["version"@])),
        wd.cprovider == CProvider::Podman || wd.cprovider == CProvider::Docker ==> (check_command_spec(wd) matches Ok(
            (prog, _),
        ) && prog == wd.cprovider.spec_name()),
        wd.cprovider == CProvider::DockerRootless ==> (check_command_spec(wd) matches Ok((prog, _))
            && prog == "docker"@),
        wd.cprovider == CProvider::Lxd ==> check_command_spec(wd) == Ok::<
            (Seq<char>, Seq<Seq<char>>),
            Seq<char>,
        >(("lxc"@, seq!["list"@, "-c"@, "n"@])),
        wd.cprovider == CProvider::Proxy && wd.cargs@.len() > 0 ==> (check_command_spec(wd) matches Ok(
            (prog, args),
        ) && prog == wd.cargs@[0]@ && args.len() + 1 == wd.cargs@.len()),
{
}

/// The message when the server does not know a deployment.
pub open spec fn unknown_deployment() -> Seq<char> {
    "This deployment is not known by rerobots! Compare with your devices shown at https://rerobots.net/hardshare\nDid you manually edit local configuration files?"@
}

/// Whether the server lists the deployment; `remote_ids` are the IDs of the
/// deployments that the server lists for the user.
pub fn check_deployment_in_remote(id: &str, remote_ids: &Vec<String>) -> (r: Result<(), Box<Error>>)
    ensures
        strs(remote_ids@).contains(id@) ==> r is Ok,
        !strs(remote_ids@).contains(id@) ==> (r matches Err(e) && opt_str(e.description) == Some(
            unknown_deployment(),
        )),
{
    let mut i: usize = 0;
    while i < remote_ids.len()
        invariant
            i <= remote_ids@.len(),
            forall|j: int| 0 <= j < i ==> remote_ids@[j]@ != id@,
        decreases remote_ids@.len() - i,
    {
        if str_eq(remote_ids[i].as_str(), id) {
            assert(strs(remote_ids@)[i as int] == id@);
            return Ok(());
        }
        i = i + 1;
    }
    proof {
        if strs(remote_ids@).contains(id@) {
            let k = choose|k: int| 0 <= k < remote_ids@.len() && strs(remote_ids@)[k] == id@;
            assert(remote_ids@[k]@ == id@);
        }
    }
    Err(
        Error::new(
            "This deployment is not known by rerobots! Compare with your devices shown at https://rerobots.net/hardshare\nDid you manually edit local configuration files?",
        ),
    )
}

/// Whether an API token can manage a deployment.
#[derive(Debug)]
pub enum TokenVerdict {
    Usable,
    /// No valid API tokens for managing the deployment.
    NoValidTokens,
    /// A token of an organization other than the default one can; the
    /// check warns.
    OtherOrg(String),
    /// Reading the user name of a token failed.
    Failed(String),
}

/// Outcome of looking through tokens for one whose user is `owner`.
pub enum ScanOutcome {
    Found(Seq<char>),
    NotFound,
    Failed(Seq<char>),
}

/// Looks through `(org, path)` pairs in order: the first path whose user
/// name cannot be read, or whose user is `owner`, decides.
pub open spec fn scan_tokens(
    items: Seq<(Seq<char>, Seq<char>)>,
    names: Map<Seq<char>, Result<String, String>>,
    owner: Seq<char>,
) -> ScanOutcome
    decreases items.len(),
{
    if items.len() == 0 {
        ScanOutcome::NotFound
    } else {
        match names[items[0].1] {
            Err(e) => ScanOutcome::Failed(e@),
            Ok(u) => if u@ == owner {
                ScanOutcome::Found(items[0].0)
            } else {
                scan_tokens(items.drop_first(), names, owner)
            },
        }
    }
}

/// The `(org, path)` pairs of one organization.
pub open spec fn org_items(org: Seq<char>, paths: Seq<String>) -> Seq<(Seq<char>, Seq<char>)> {
    Seq::new(paths.len(), |i: int| (org, paths[i]@))
}

/// The pairs of every organization but `skip`, in the order of the map.
pub open spec fn other_items(
    keys: Seq<Seq<char>>,
    tokens: Map<Seq<char>, Vec<String>>,
    skip: Seq<char>,
) -> Seq<(Seq<char>, Seq<char>)>
    decreases keys.len(),
{
    if keys.len() == 0 {
        seq![]
    } else {
        let rest = other_items(keys.drop_last(), tokens, skip);
        if keys.last() == skip {
            rest
        } else {
            rest + org_items(keys.last(), tokens[keys.last()]@)
        }
    }
}

/// The organization used when none is declared.
pub open spec fn default_org_name(config: Config) -> Seq<char> {
    match config.default_org {
        Some(o) => o@,
        None => "()"@,
    }
}

/// The tokens looked at, in order: those of the default organization, then
/// those of the others.
pub open spec fn token_items(config: Config) -> Seq<(Seq<char>, Seq<char>)> {
    let d = default_org_name(config);
    let tokens = config.api_tokens.view();
    let first = if tokens.dom().contains(d) {
        org_items(d, tokens[d]@)
    } else {
        seq![]
    };
    first + other_items(config.api_tokens.key_seq(), tokens, d)
}

/// A verdict as plain values.
pub enum VerdictView {
    Usable,
    NoValidTokens,
    OtherOrg(Seq<char>),
    Failed(Seq<char>),
}

impl TokenVerdict {
    pub open spec fn view(&self) -> VerdictView {
        match self {
            TokenVerdict::Usable => VerdictView::Usable,
            TokenVerdict::NoValidTokens => VerdictView::NoValidTokens,
            TokenVerdict::OtherOrg(o) => VerdictView::OtherOrg(o@),
            TokenVerdict::Failed(e) => VerdictView::Failed(e@),
        }
    }
}

/// Whether the configuration holds a token that can manage a deployment of
/// `owner`.  A key of the token map equal to the owner decides by itself;
/// otherwise the tokens are looked through, default organization first.
pub open spec fn token_verdict_spec(
    config: Config,
    owner: Seq<char>,
    names: Map<Seq<char>, Result<String, String>>,
) -> VerdictView {
    let tokens = config.api_tokens.view();
    if tokens.dom().contains(owner) {
        if tokens[owner]@.len() == 0 {
            VerdictView::NoValidTokens
        } else {
            VerdictView::Usable
        }
    } else {
        match scan_tokens(token_items(config), names, owner) {
            ScanOutcome::Failed(e) => VerdictView::Failed(e),
            ScanOutcome::NotFound => VerdictView::NoValidTokens,
            ScanOutcome::Found(org) => if org == default_org_name(config) {
                VerdictView::Usable
            } else {
                VerdictView::OtherOrg(org)
            },
        }
    }
}

pub open spec fn pairs_view(v: Seq<(String, String)>) -> Seq<(Seq<char>, Seq<char>)> {
    v.map_values(|p: (String, String)| (p.0@, p.1@))
}

fn push_org_items(v: &mut Vec<(String, String)>, org: &String, paths: &Vec<String>)
    ensures
        pairs_view(final(v)@) == pairs_view(old(v)@) + org_items(org@, paths@),
{
    let mut i: usize = 0;
    while i < paths.len()
        invariant
            i <= paths@.len(),
            pairs_view(v@) == pairs_view(old(v)@) + org_items(org@, paths@.subrange(0, i as int)),
        decreases paths@.len() - i,
    {
        let ghost before = v@;
        v.push((org.clone(), paths[i].clone()));
        i = i + 1;
        assert(pairs_view(v@) =~= pairs_view(before).push((org@, paths@[i - 1]@)));
        assert(org_items(org@, paths@.subrange(0, i as int)) =~= org_items(
            org@,
            paths@.subrange(0, i - 1),
        ).push((org@, paths@[i - 1]@)));
        assert(pairs_view(v@) =~= pairs_view(old(v)@) + org_items(
            org@,
            paths@.subrange(0, i as int),
        ));
    }
    assert(paths@.subrange(0, paths@.len() as int) =~= paths@);
}

/// The tokens to look through, as `(org, path)` pairs.
fn collect_items(config: &Config, default_org: &String) -> (v: Vec<(String, String)>)
    requires
        config.wf(),
        default_org@ == default_org_name(*config),
    ensures
        pairs_view(v@) == token_items(*config),
{
    let mut v: Vec<(String, String)> = Vec::new();
    proof {
        config.api_tokens.lemma_view();
    }
    match config.api_tokens.get(default_org.as_str()) {
        Some(paths) => {
            push_org_items(&mut v, default_org, paths);
        },
        None => {},
    }
    assert(pairs_view(v@) =~= (if config.api_tokens.view().dom().contains(default_org@) {
        org_items(default_org@, config.api_tokens.view()[default_org@]@)
    } else {
        seq![]
    }));
    let ghost first = pairs_view(v@);
    let ghost keys = config.api_tokens.key_seq();
    let n = config.api_tokens.len();
    let mut i: usize = 0;
    while i < n
        invariant
            config.wf(),
            n == config.api_tokens.entries().len(),
            i <= n,
            keys == config.api_tokens.key_seq(),
            keys.len() == n,
            forall|j: int|
                0 <= j < n ==> #[trigger] config.api_tokens.view()[keys[j]]
                    == config.api_tokens.entries()[j].1,
            pairs_view(v@) == first + other_items(
                keys.subrange(0, i as int),
                config.api_tokens.view(),
                default_org@,
            ),
        decreases n - i,
    {
        let (org, paths) = config.api_tokens.entry_at(i);
        let ghost pre = keys.subrange(0, i + 1);
        assert(pre.drop_last() =~= keys.subrange(0, i as int));
        assert(pre.last() == org@);
        assert(config.api_tokens.view()[keys[i as int]] == *paths);
        if !str_eq(org.as_str(), default_org.as_str()) {
            push_org_items(&mut v, org, paths);
        }
        proof {
            assert(pairs_view(v@) =~= first + other_items(pre, config.api_tokens.view(), default_org@));
        }
        i = i + 1;
    }
    assert(keys.subrange(0, n as int) =~= keys);
    v
}

/// Whether the configuration holds a token that can manage a deployment of
/// `owner`; `names` gives, for the path of every token, the user name read
/// from it or the error met while reading it.
pub fn token_verdict(config: &Config, owner: &str, names: &StrMap<Result<String, String>>) -> (r:
    TokenVerdict)
    requires
        config.wf(),
        names.wf(),
        forall|i: int|
            0 <= i < token_items(*config).len() ==> names.view().dom().contains(
                #[trigger] token_items(*config)[i].1,
            ),
    ensures
        r.view() == token_verdict_spec(*config, owner@, names.view()),
{
    match config.api_tokens.get(owner) {
        Some(paths) => {
            if paths.len() == 0 {
                return TokenVerdict::NoValidTokens;
            } else {
                return TokenVerdict::Usable;
            }
        },
        None => {},
    }
    let default_org = match &config.default_org {
        Some(o) => o.clone(),
        None => owned("()"),
    };
    let items = collect_items(config, &default_org);
    let ghost iv = pairs_view(items@);
    let mut j: usize = 0;
    assert(iv.subrange(0, iv.len() as int) =~= iv);
    while j < items.len()
        invariant
            j <= items@.len(),
            iv == pairs_view(items@),
            iv == token_items(*config),
            names.wf(),
            !config.api_tokens.view().dom().contains(owner@),
            default_org@ == default_org_name(*config),
            forall|i: int| 0 <= i < iv.len() ==> names.view().dom().contains(#[trigger] iv[i].1),
            scan_tokens(iv, names.view(), owner@) == scan_tokens(
                iv.subrange(j as int, iv.len() as int),
                names.view(),
                owner@,
            ),
        decreases items@.len() - j,
    {
        let ghost rest = iv.subrange(j as int, iv.len() as int);
        assert(rest[0] == iv[j as int]);
        assert(rest.drop_first() =~= iv.subrange(j + 1, iv.len() as int));
        let (org, path) = &items[j];
        assert(iv[j as int] == (org@, path@));
        match names.get(path.as_str()) {
            Some(Err(e)) => {
                assert(names.view()[rest[0].1] == Err::<String, String>(*e));
                return TokenVerdict::Failed(e.clone());
            },
            Some(Ok(u)) => {
                if str_eq(u.as_str(), owner) {
                    assert(names.view()[rest[0].1] == Ok::<String, String>(*u));
                    if str_eq(org.as_str(), default_org.as_str()) {
                        return TokenVerdict::Usable;
                    } else {
                        return TokenVerdict::OtherOrg(org.clone());
                    }
                }
                assert(names.view()[rest[0].1] == Ok::<String, String>(*u));
            },
            None => {
                assert(names.view().dom().contains(iv[j as int].1));
            },
        }
        j = j + 1;
    }
    TokenVerdict::NoValidTokens
}

/// What running a provider's test command came to.
#[derive(Debug)]
pub enum CommandOutcome {
    /// The command could not be started (or, for a proxy, stopped again);
    /// the text of the error.
    Failed(String),
    /// The command ran: whether it exited successfully, and its exit code.
    Ran { success: bool, code: Option<i32> },
}

/// The error of testing a provider whose command is `what` (as shown in
/// messages) and came to `outcome`.
pub open spec fn command_verdict(what: Seq<char>, outcome: CommandOutcome) -> Result<(), Seq<char>> {
    match outcome {
        CommandOutcome::Failed(e) => Err("error calling `"@ + what + "`: "@ + e@),
        CommandOutcome::Ran { success, code } => if success {
            Ok(())
        } else {
            Err("`"@ + what + "` failed with return code: "@ + exit_code_text(code))
        },
    }
}

/// Whether the provider of `wd` is usable, given what running its test
/// command (`check_command`) came to.  A proxy is usable when its command
/// could be started and stopped.
pub open spec fn cprovider_verdict(wd: WDeployment, outcome: CommandOutcome) -> Result<(), Seq<char>> {
    match wd.cprovider {
        CProvider::Podman => command_verdict("podman version"@, outcome),
        CProvider::Docker | CProvider::DockerRootless => command_verdict("docker version"@, outcome),
        CProvider::Lxd => command_verdict("lxc list"@, outcome),
        CProvider::Proxy => if wd.cargs@.len() == 0 {
            Err(proxy_unconfigured())
        } else {
            match outcome {
                CommandOutcome::Failed(e) => Err(e@),
                CommandOutcome::Ran { .. } => Ok(()),
            }
        },
    }
}

fn command_result(what: &str, outcome: &CommandOutcome) -> (r: Result<(), String>)
    ensures
        match command_verdict(what@, *outcome) {
            Ok(()) => r is Ok,
            Err(m) => r matches Err(e) && e@ == m,
        },
{
    match outcome {
        CommandOutcome::Failed(e) => {
            let head = concat3("error calling `", what, "`: ");
            Err(concat2(head.as_str(), e.as_str()))
        },
        CommandOutcome::Ran { success, code } => {
            if *success {
                Ok(())
            } else {
                let head = concat3("`", what, "` failed with return code: ");
                let c = exit_code_string(*code);
                Err(concat2(head.as_str(), c.as_str()))
            }
        },
    }
}

/// Whether the container provider of `wd` is usable, from what running its
/// test command came to.
pub fn check_cprovider(wd: &WDeployment, outcome: &CommandOutcome) -> (r: Result<(), String>)
    ensures
        match cprovider_verdict(*wd, *outcome) {
            Ok(()) => r is Ok,
            Err(m) => r matches Err(e) && e@ == m,
        },
{
    match wd.cprovider {
        CProvider::Podman => command_result("podman version", outcome),
        CProvider::Docker | CProvider::DockerRootless => command_result("docker version", outcome),
        CProvider::Lxd => command_result("lxc list", outcome),
        CProvider::Proxy => {
            if wd.cargs.len() == 0 {
                return Err(
                    owned("Proxy is not configured. Try `hardshare config --assign-proxy-command`"),
                );
            }
            match outcome {
                CommandOutcome::Failed(e) => Err(e.clone()),
                CommandOutcome::Ran { .. } => Ok(()),
            }
        },
    }
}

/// The message when the provider test failed with `err`.
pub open spec fn provider_failure_spec(err: Seq<char>, p: CProvider) -> Seq<char> {
    err + "\nIs "@ + p.spec_name() + " installed correctly?"@
}

pub fn provider_failure_message(err: &str, p: CProvider) -> (s: String)
    ensures
        s@ == provider_failure_spec(err@, p),
{
    let head = concat2(err, "\nIs ");
    concat3(head.as_str(), p.name(), " installed correctly?")
}

/// The message when the local configuration does not have the ID.
pub open spec fn unknown_id_spec(id: Seq<char>) -> Seq<char> {
    "given ID not found in local config: "@ + id
}

pub fn unknown_id_message(id: &str) -> (s: String)
    ensures
        s@ == unknown_id_spec(id@),
{
    concat2("given ID not found in local config: ", id)
}

/// What the check reports of the tokens of deployment `id`.
pub enum TokenReport {
    /// Nothing to report.
    Silent,
    /// A failure of the check, with its message.
    Failure(String),
    /// A warning to print; the check goes on.
    Warning(String),
    /// Reading a token failed; the check ends with this error.
    Abort(String),
}

pub open spec fn token_report_spec(id: Seq<char>, v: VerdictView) -> (Seq<char>, int) {
    match v {
        VerdictView::Usable => (seq![], 0),
        VerdictView::NoValidTokens => ("no valid API tokens for managing "@ + id, 1),
        VerdictView::OtherOrg(o) => (
            "warning: valid API token for managing "@ + id + " with organization "@ + o
                + ", which is not default org"@,
            2,
        ),
        VerdictView::Failed(e) => (e, 3),
    }
}

pub open spec fn report_view(r: TokenReport) -> (Seq<char>, int) {
    match r {
        TokenReport::Silent => (seq![], 0),
        TokenReport::Failure(m) => (m@, 1),
        TokenReport::Warning(m) => (m@, 2),
        TokenReport::Abort(m) => (m@, 3),
    }
}

/// The report on the tokens of deployment `id` for a verdict.
pub fn token_report(id: &str, verdict: &TokenVerdict) -> (r: TokenReport)
    ensures
        report_view(r) == token_report_spec(id@, verdict.view()),
{
    match verdict {
        TokenVerdict::Usable => TokenReport::Silent,
        TokenVerdict::NoValidTokens => TokenReport::Failure(
            concat2("no valid API tokens for managing ", id),
        ),
        TokenVerdict::OtherOrg(o) => {
            let head = concat3("warning: valid API token for managing ", id, " with organization ");
            TokenReport::Warning(concat3(head.as_str(), o.as_str(), ", which is not default org"))
        },
        TokenVerdict::Failed(e) => TokenReport::Abort(e.clone()),
    }
}

/// The message when the test container could not be created; when the
/// check fails fast on it, it adds how to remove a container left behind.
pub open spec fn create_failure_spec(err: Seq<char>, p: CProvider, cname: Seq<char>, fail_fast: bool) -> Seq<
    char,
> {
    let msg = "caught while creating test container: "@ + err;
    if fail_fast && p != CProvider::Proxy {
        msg + "\nYou may need to manually stop or remove it using "@ + p.spec_name() + ": "@ + cname
    } else {
        msg
    }
}

pub fn create_failure_message(err: &str, p: CProvider, cname: &str, fail_fast: bool) -> (s: String)
    ensures
        s@ == create_failure_spec(err@, p, cname@, fail_fast),
{
    let msg = concat2("caught while creating test container: ", err);
    let is_proxy = match p {
        CProvider::Proxy => true,
        _ => false,
    };
    if fail_fast && !is_proxy {
        let more = concat3(msg.as_str(), "\nYou may need to manually stop or remove it using ", p.name());
        concat3(more.as_str(), ": ", cname)
    } else {
        msg
    }
}

/// The steps of `hardshare check` on one deployment, in the order they run.
#[derive(Debug, Clone, Copy, PartialEq, Eq, Structural)]
pub enum CheckStep {
    /// The server lists the deployment.
    Registration,
    /// A saved API token of the owner can be used.
    Tokens,
    /// The container provider answers.
    Provider,
    /// The deployment's monitor runs once.
    Monitor,
    /// A test container can be created.
    CreateContainer,
    /// The test container can be removed.
    DestroyContainer,
}

/// The step that follows `s`; none after the last.
pub open spec fn step_after(s: CheckStep) -> Option<CheckStep> {
    match s {
        CheckStep::Registration => Some(CheckStep::Tokens),
        CheckStep::Tokens => Some(CheckStep::Provider),
        CheckStep::Provider => Some(CheckStep::Monitor),
        CheckStep::Monitor => Some(CheckStep::CreateContainer),
        CheckStep::CreateContainer => Some(CheckStep::DestroyContainer),
        CheckStep::DestroyContainer => None,
    }
}

/// A failure at this step ends the check, whether or not it stops at the
/// first failure: nothing after it can be tested.
pub open spec fn fatal_step(s: CheckStep) -> bool {
    s == CheckStep::Provider || s == CheckStep::Monitor
}

impl CheckStep {
    /// The step that runs first.
    pub fn first() -> (s: CheckStep)
        ensures
            s == CheckStep::Registration,
    {
        CheckStep::Registration
    }

    /// The step that runs after this one, if any.
    pub fn next(&self) -> (r: Option<CheckStep>)
        ensures
            r == step_after(*self),
    {
        match self {
            CheckStep::Registration => Some(CheckStep::Tokens),
            CheckStep::Tokens => Some(CheckStep::Provider),
            CheckStep::Provider => Some(CheckStep::Monitor),
            CheckStep::Monitor => Some(CheckStep::CreateContainer),
            CheckStep::CreateContainer => Some(CheckStep::DestroyContainer),
            CheckStep::DestroyContainer => None,
        }
    }
}

/// The course of a check: whether it stops at the first failure, and
/// whether a failure was met.
#[derive(Debug)]
pub struct CheckRun {
    pub fail_fast: bool,
    pub failed: bool,
}

impl CheckRun {
    pub fn new(fail_fast: bool) -> (c: Self)
        ensures
            c.fail_fast == fail_fast,
            !c.failed,
    {
        CheckRun { fail_fast, failed: false }
    }

    /// Notes a failure; the answer says whether the check stops here.
    pub fn fail(&mut self) -> (stop: bool)
        ensures
            stop == old(self).fail_fast,
            final(self).fail_fast == old(self).fail_fast,
            final(self).failed,
    {
        self.failed = true;
        self.fail_fast
    }

    /// Notes a failure at `step`; the answer says whether the check stops
    /// here: always at a fatal step, else when it stops at the first failure.
    pub fn fail_at(&mut self, step: CheckStep) -> (stop: bool)
        ensures
            stop == (fatal_step(step) || old(self).fail_fast),
            final(self).fail_fast == old(self).fail_fast,
            final(self).failed,
    {
        self.failed = true;
        self.fail_fast || step == CheckStep::Provider || step == CheckStep::Monitor
    }

    /// The result of a check that ran to its end: an error without
    /// description if any failure was met.
    pub fn finish(&self) -> (r: Result<(), Box<Error>>)
        ensures
            !self.failed ==> r is Ok,
            self.failed ==> (r matches Err(e) && e.description is None),
    {
        if self.failed {
            Err(Error::new_empty())
        } else {
            Ok(())
        }
    }
}

} // verus!
