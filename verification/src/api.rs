//! The client side of the hardshare API: which token the client uses, the
//! checks made on the local configuration before a request, the add-ons of a
//! deployment, the table of advertised deployments kept by the daemon, and
//! the reading of commands that the server sends over the WebSocket.
use vstd::prelude::*;
use crate::control::{CWorkerCommand, CWorkerCommandType, ConnType, TunnelInfo};
use crate::json::{JsonValue, member, lookup};
use crate::mgmt::{Config, MgmtError, WDeployment, WDeploymentView, find_id_prefix, find_spec, min_view, opt_str, strs, str_list_of, str_of};
use crate::strmap::StrMap;
use crate::text::{owned, concat2, concat3, str_eq};

verus! {

/// What a reply from a server means to the client.
#[derive(Debug)]
pub enum ReplyVerdict {
    /// Status 200: the body carries the answer.
    Success,
    /// Status 400 where the server explains a refusal: the error is the
    /// body's `error_message`.
    Refused,
    /// Any other status: the error with this text.
    Failed(String),
}

/// Reads the status of a reply.  `status_text` is how the status prints
/// (code and reason), `prefix` opens the error text of an unexpected status;
/// `refusals` tells whether a 400 reply explains itself, `not_found` whether
/// a 404 reply means that the deployment is not found.
pub fn reply_verdict(status: u16, status_text: &str, prefix: &str, refusals: bool, not_found: bool) -> (r:
    ReplyVerdict)
    ensures
        status == 200 ==> r is Success,
        status == 400 && refusals ==> r is Refused,
        status == 404 && not_found ==> (r matches ReplyVerdict::Failed(m) && m@ == "not found"@),
        status != 200 && !(status == 400 && refusals) && !(status == 404 && not_found) ==> (
        r matches ReplyVerdict::Failed(m) && m@ == prefix@ + ": "@ + status_text@),
{
    if status == 200 {
        ReplyVerdict::Success
    } else if status == 400 && refusals {
        ReplyVerdict::Refused
    } else if status == 404 && not_found {
        ReplyVerdict::Failed(owned("not found"))
    } else {
        ReplyVerdict::Failed(concat3(prefix, ": ", status_text))
    }
}

/// Add-ons that a deployment can enable.
#[derive(Debug, Clone, Copy, PartialEq, Eq, Structural)]
pub enum AddOn {
    MistyProxy,
}

impl AddOn {
    pub open spec fn spec_name(&self) -> Seq<char> {
        match self {
            AddOn::MistyProxy => "mistyproxy"@,
        }
    }

    /// The name of the add-on (its `Display`).
    pub fn name(&self) -> (s: &'static str)
        ensures
            s@ == self.spec_name(),
    {
        match self {
            AddOn::MistyProxy => "mistyproxy",
        }
    }
}

/// The organization whose token the client uses: the default one, or `()`.
pub open spec fn client_org(config: Config) -> Seq<char> {
    match config.default_org {
        Some(o) => o@,
        None => "()"@,
    }
}

/// The path of the token that the client sends: the first one of the
/// client's organization, if it has any.
pub fn client_token_path(config: &Config) -> (r: Option<String>)
    requires
        config.wf(),
    ensures
        match r {
            Some(p) => config.api_tokens.view().dom().contains(client_org(*config))
                && config.api_tokens.view()[client_org(*config)]@.len() > 0 && p@
                == config.api_tokens.view()[client_org(*config)]@[0]@,
            None => !config.api_tokens.view().dom().contains(client_org(*config))
                || config.api_tokens.view()[client_org(*config)]@.len() == 0,
        },
{
    let org = match &config.default_org {
        Some(o) => o.clone(),
        None => owned("()"),
    };
    match config.api_tokens.get(org.as_str()) {
        Some(paths) => {
            if paths.len() > 0 {
                Some(paths[0].clone())
            } else {
                None
            }
        },
        None => None,
    }
}

/// The error of a request made without a token.
pub open spec fn missing_token_spec(config: Option<Config>) -> Seq<char> {
    match config {
        Some(c) => match c.default_org {
            Some(o) => "No valid API tokens found for org "@ + o@,
            None => "No valid API tokens found (no default org)"@,
        },
        None => "No valid API tokens found"@,
    }
}

pub fn missing_token_message(config: Option<&Config>) -> (s: String)
    ensures
        s@ == missing_token_spec(
            match config {
                Some(c) => Some(*c),
                None => None,
            },
        ),
{
    match config {
        Some(c) => match &c.default_org {
            Some(o) => concat2("No valid API tokens found for org ", o.as_str()),
            None => owned("No valid API tokens found (no default org)"),
        },
        None => owned("No valid API tokens found"),
    }
}

/// The cached API token that starting or advertising a deployment needs,
/// or the error when none is cached.
pub fn cached_token(token: &Option<String>) -> (r: Result<String, String>)
    ensures
        match token {
            Some(t) => r matches Ok(u) && u@ == t@,
            None => r matches Err(e) && e@ == "No valid API tokens found."@,
        },
{
    match token {
        Some(t) => Ok(t.clone()),
        None => Err(owned("No valid API tokens found.")),
    }
}

/// Whether a new deployment may be registered: a local configuration is
/// needed and, with `at_most_1`, it must not declare any deployment yet.
pub fn register_check(config: Option<&Config>, at_most_1: bool) -> (r: Result<(), String>)
    ensures
        match config {
            None => r matches Err(e) && e@
                == "cannot register without initial local configuration. (try `hardshare config --create`)"@,
            Some(c) => if at_most_1 && c.wdeployments@.len() > 0 {
                r matches Err(e) && e@
                    == "local configuration already declares a workspace deployment (to register more, `hardshare register --permit-more`)"@
            } else {
                r is Ok
            },
        },
{
    match config {
        Some(c) => {
            if at_most_1 && c.wdeployments.len() > 0 {
                return Err(
                    owned(
                        "local configuration already declares a workspace deployment (to register more, `hardshare register --permit-more`)",
                    ),
                );
            }
            Ok(())
        },
        None => Err(
            owned(
                "cannot register without initial local configuration. (try `hardshare config --create`)",
            ),
        ),
    }
}

/// Adds the deployment that the server registered, with its defaults, and
/// gives its ID.
pub fn record_registration(config: &mut Config, id: &str, owner: &str) -> (r: String)
    ensures
        r@ == id@,
        final(config).wdeployments@.len() == old(config).wdeployments@.len() + 1,
        final(config).wdeployments@.subrange(0, old(config).wdeployments@.len() as int) == old(
            config,
        ).wdeployments@,
        final(config).wdeployments@.last()@ == min_view(id@, owner@),
        final(config).api_tokens == old(config).api_tokens,
        final(config).api_tokens_data == old(config).api_tokens_data,
        final(config).err_api_tokens == old(config).err_api_tokens,
        final(config).default_org == old(config).default_org,
{
    let wd = WDeployment::new_min(id, owner);
    config.wdeployments.push(wd);
    assert(config.wdeployments@.subrange(0, old(config).wdeployments@.len() as int)
        =~= old(config).wdeployments@);
    owned(id)
}

/// Whether a deployment already registered may be declared locally: a local
/// configuration is needed, and it must not declare the ID yet.
#[verifier::loop_isolation(false)]
pub fn declare_check(config: Option<&Config>, wdid: &str) -> (r: Result<(), String>)
    ensures
        match config {
            None => r matches Err(e) && e@
                == "cannot declare existing without initial local configuration. (try `hardshare config --create`)"@,
            Some(c) => if exists|i: int|
                0 <= i < c.wdeployments@.len() && (#[trigger] c.wdeployments@[i]).id@ == wdid@ {
                r matches Err(e) && e@
                    == "attempted to declare workspace deployment that is already declared in local configuration"@
            } else {
                r is Ok
            },
        },
{
    match config {
        Some(c) => {
            let mut i: usize = 0;
            while i < c.wdeployments.len()
                invariant
                    i <= c.wdeployments@.len(),
                    forall|j: int| 0 <= j < i ==> (#[trigger] c.wdeployments@[j]).id@ != wdid@,
                decreases c.wdeployments@.len() - i,
            {
                if str_eq(c.wdeployments[i].id.as_str(), wdid) {
                    return Err(
                        owned(
                            "attempted to declare workspace deployment that is already declared in local configuration",
                        ),
                    );
                }
                i = i + 1;
            }
            Ok(())
        },
        None => Err(
            owned(
                "cannot declare existing without initial local configuration. (try `hardshare config --create`)",
            ),
        ),
    }
}

/// The deployment to declare: the server must list `wdid` among the IDs of
/// the user's deployments; `owner` is the user that the server names.
pub fn declared_wdeployment(remote_ids: &Vec<String>, owner: &str, wdid: &str) -> (r: Result<
    WDeployment,
    String,
>)
    ensures
        strs(remote_ids@).contains(wdid@) ==> (r matches Ok(wd) && wd@ == min_view(
            wdid@,
            owner@,
        )),
        !strs(remote_ids@).contains(wdid@) ==> (r matches Err(e) && e@
            == "no previously registered workspace deployments found with given ID"@),
{
    let mut i: usize = 0;
    while i < remote_ids.len()
        invariant
            i <= remote_ids@.len(),
            forall|j: int| 0 <= j < i ==> remote_ids@[j]@ != wdid@,
        decreases remote_ids@.len() - i,
    {
        if str_eq(remote_ids[i].as_str(), wdid) {
            assert(strs(remote_ids@)[i as int] == wdid@);
            return Ok(WDeployment::new_min(wdid, owner));
        }
        i = i + 1;
    }
    proof {
        if strs(remote_ids@).contains(wdid@) {
            let k = choose|k: int| 0 <= k < remote_ids@.len() && strs(remote_ids@)[k] == wdid@;
            assert(remote_ids@[k]@ == wdid@);
        }
    }
    Err(owned("no previously registered workspace deployments found with given ID"))
}

/// Where the deployment to dissolve stands in the local configuration.
/// The configuration must declare it when it declares any deployment.
#[verifier::loop_isolation(false)]
pub fn dissolve_index(config: Option<&Config>, wdid: &str) -> (r: Result<usize, String>)
    requires
        config matches Some(c) ==> (c.wdeployments@.len() > 0 ==> exists|i: int|
            0 <= i < c.wdeployments@.len() && (#[trigger] c.wdeployments@[i]).id@ == wdid@),
    ensures
        match config {
            None => r matches Err(e) && e@ == "cannot dissolve without local configuration"@,
            Some(c) => if c.wdeployments@.len() == 0 {
                r matches Err(e) && e@
                    == "Unexpected dissolve request: local configuration is empty"@
            } else {
                r matches Ok(i) && i < c.wdeployments@.len() && c.wdeployments@[i as int].id@
                    == wdid@ && forall|j: int|
                    0 <= j < i ==> (#[trigger] c.wdeployments@[j]).id@ != wdid@
            },
        },
{
    match config {
        None => Err(owned("cannot dissolve without local configuration")),
        Some(c) => {
            if c.wdeployments.len() == 0 {
                return Err(owned("Unexpected dissolve request: local configuration is empty"));
            }
            let mut i: usize = 0;
            while i < c.wdeployments.len()
                invariant
                    i <= c.wdeployments@.len(),
                    forall|j: int| 0 <= j < i ==> (#[trigger] c.wdeployments@[j]).id@ != wdid@,
                    exists|k: int|
                        0 <= k < c.wdeployments@.len() && (#[trigger] c.wdeployments@[k]).id@
                            == wdid@,
                decreases c.wdeployments@.len() - i,
            {
                if str_eq(c.wdeployments[i].id.as_str(), wdid) {
                    return Ok(i);
                }
                i = i + 1;
            }
            proof {
                let k = choose|k: int|
                    0 <= k < c.wdeployments@.len() && (#[trigger] c.wdeployments@[k]).id@
                        == wdid@;
                assert(c.wdeployments@[k].id@ != wdid@);
            }
            Err(owned("Unexpected dissolve request: local configuration is empty"))
        },
    }
}

/// A deployment with the SSH key `k`.
pub open spec fn with_ssh_key(v: WDeploymentView, k: Seq<char>) -> WDeploymentView {
    WDeploymentView { ssh_key: Some(k), ..v }
}

/// The deployment that the daemon advertises for `wdid`: the one that the ID
/// prefix designates, with the configuration's SSH key.
pub fn ad_wdeployment(config: &Config, wdid: &str) -> (r: Result<WDeployment, MgmtError>)
    ensures
        match find_spec(config.wdeployments@, Some(wdid@)) {
            Ok(i) => r matches Ok(wd) && wd@ == (with_ssh_key(
                config.wdeployments@[i]@,
                config.ssh_key@,
            )),
            Err(m) => r matches Err(e) && e.msg@ == m,
        },
{
    let i = find_id_prefix(config, Some(wdid))?;
    let mut wd = config.wdeployments[i].duplicate();
    wd.ssh_key = Some(config.ssh_key.clone());
    Ok(wd)
}

/// What the daemon reports: the deployments that it advertises.
#[derive(Debug)]
pub struct DaemonStatus {
    pub ad_deployments: Vec<String>,
}

/// The lines of a status report, one per advertised deployment.
pub open spec fn status_lines(ids: Seq<Seq<char>>) -> Seq<char>
    decreases ids.len(),
{
    if ids.len() == 0 {
        seq![]
    } else {
        status_lines(ids.drop_last()) + "\t"@ + ids.last() + "\n"@
    }
}

/// The text of a status report.
pub open spec fn status_text(ids: Seq<Seq<char>>) -> Seq<char> {
    "advertised deployments:\n"@ + if ids.len() == 0 {
        "\t(none)\n"@
    } else {
        status_lines(ids)
    }
}

impl DaemonStatus {
    /// The report as text (its `Display`).
    pub fn text(&self) -> (s: String)
        ensures
            s@ == status_text(strs(self.ad_deployments@)),
    {
        if self.ad_deployments.len() == 0 {
            return concat2("advertised deployments:\n", "\t(none)\n");
        }
        let mut s = owned("advertised deployments:\n");
        let ghost head = s@;
        let mut i: usize = 0;
        while i < self.ad_deployments.len()
            invariant
                i <= self.ad_deployments@.len(),
                s@ == head + status_lines(strs(self.ad_deployments@.subrange(0, i as int))),
            decreases self.ad_deployments@.len() - i,
        {
            let line = concat3("\t", self.ad_deployments[i].as_str(), "\n");
            s = concat2(s.as_str(), line.as_str());
            i = i + 1;
            proof {
                let sub = strs(self.ad_deployments@.subrange(0, i as int));
                assert(sub.drop_last() =~= strs(self.ad_deployments@.subrange(0, i - 1)));
                assert(sub.last() == self.ad_deployments@[i - 1]@);
            }
        }
        assert(self.ad_deployments@.subrange(0, i as int) =~= self.ad_deployments@);
        s
    }
}

/// The add-ons enabled after enabling `a`: `a` is added at the end unless
/// it is there already.
pub open spec fn with_addon_spec(list: Seq<Seq<char>>, a: Seq<char>) -> Seq<Seq<char>> {
    if list.contains(a) {
        list
    } else {
        list.push(a)
    }
}

pub fn with_addon(list: &Vec<String>, addon: AddOn) -> (r: Vec<String>)
    ensures
        strs(r@) == with_addon_spec(strs(list@), addon.spec_name()),
{
    let mut r: Vec<String> = Vec::new();
    let mut found = false;
    let name = addon.name();
    let mut i: usize = 0;
    while i < list.len()
        invariant
            i <= list@.len(),
            strs(r@) == strs(list@).subrange(0, i as int),
            found <==> strs(list@).subrange(0, i as int).contains(name@),
        decreases list@.len() - i,
    {
        if str_eq(list[i].as_str(), name) {
            found = true;
        }
        r.push(list[i].clone());
        i = i + 1;
        proof {
            let sub = strs(list@).subrange(0, i as int);
            assert(sub =~= strs(list@).subrange(0, i - 1).push(list@[i - 1]@));
            if sub.contains(name@) {
                let k = choose|k: int| 0 <= k < sub.len() && sub[k] == name@;
                if k < i - 1 {
                    assert(strs(list@).subrange(0, i - 1)[k] == name@);
                }
            }
            let prev = strs(list@).subrange(0, i - 1);
            if prev.contains(name@) {
                let k = choose|k: int| 0 <= k < prev.len() && prev[k] == name@;
                assert(sub[k] == name@);
            }
            if list@[i - 1]@ == name@ {
                assert(sub[i - 1] == name@);
            }
        }
        assert(strs(r@) =~= strs(list@).subrange(0, i as int));
    }
    assert(strs(list@).subrange(0, list@.len() as int) =~= strs(list@));
    if !found {
        let ghost before = r@;
        r.push(owned(name));
        assert(strs(r@) =~= strs(before).push(name@));
    }
    r
}

/// The add-ons enabled after disabling `a`: its first occurrence goes;
/// nothing when it is not enabled.
pub open spec fn without_addon_spec(list: Seq<Seq<char>>, a: Seq<char>) -> Option<Seq<Seq<char>>> {
    match crate::cli::first_pos(list, a) {
        Some(k) => Some(list.remove(k)),
        None => None,
    }
}

pub fn without_addon(list: &Vec<String>, addon: AddOn) -> (r: Option<Vec<String>>)
    ensures
        match without_addon_spec(strs(list@), addon.spec_name()) {
            Some(l) => r matches Some(v) && strs(v@) == l,
            None => r is None,
        },
{
    let name = addon.name();
    match crate::cli::position(list, name) {
        Some(k) => {
            let mut v = crate::mgmt::clone_strings(list);
            v.remove(k);
            assert(strs(v@) =~= strs(list@).remove(k as int));
            Some(v)
        },
        None => None,
    }
}

/// Enabling an add-on and then disabling it gives back the list of
/// add-ons, when it was not enabled before.
pub proof fn law_addon_enable_disable(list: Seq<Seq<char>>, a: Seq<char>)
    requires
        !list.contains(a),
    ensures
        without_addon_spec(with_addon_spec(list, a), a) == Some(list),
{
    let l2 = list.push(a);
    crate::cli::lemma_first_pos(l2, a);
    assert(l2[list.len() as int] == a);
    match crate::cli::first_pos(l2, a) {
        Some(k) => {
            if k < list.len() {
                assert(list[k] == a);
            }
            assert(l2.remove(k) =~= list);
        },
        None => {},
    }
}

/// Enabling an add-on leaves it enabled, and enabling it again changes
/// nothing.
pub proof fn law_addon_enable_idempotent(list: Seq<Seq<char>>, a: Seq<char>)
    ensures
        with_addon_spec(list, a).contains(a),
        with_addon_spec(with_addon_spec(list, a), a) == with_addon_spec(list, a),
{
    if !list.contains(a) {
        assert(list.push(a)[list.len() as int] == a);
    }
}

/// Commands that the daemon gives the actor that serves one deployment.
#[derive(Debug, Clone, Copy, PartialEq, Eq, Structural)]
pub enum MainCommand {
    Stop,
    StopDaemon,
    RestartWebsocket,
}

impl MainCommand {
    pub open spec fn spec_text(&self) -> Seq<char> {
        match self {
            MainCommand::Stop => "STOP"@,
            MainCommand::StopDaemon => "STOP DAEMON"@,
            MainCommand::RestartWebsocket => "RESTART WEBSOCKET"@,
        }
    }

    pub fn text(&self) -> (s: &'static str)
        ensures
            s@ == self.spec_text(),
    {
        match self {
            MainCommand::Stop => "STOP",
            MainCommand::StopDaemon => "STOP DAEMON",
            MainCommand::RestartWebsocket => "RESTART WEBSOCKET",
        }
    }

    /// The command that a text names, if any.
    pub fn from_text(t: &str) -> (r: Option<MainCommand>)
        ensures
            match r {
                Some(c) => c.spec_text() == t@,
                None => t@ != "STOP"@ && t@ != "STOP DAEMON"@ && t@ != "RESTART WEBSOCKET"@,
            },
    {
        if str_eq(t, "STOP") {
            Some(MainCommand::Stop)
        } else if str_eq(t, "STOP DAEMON") {
            Some(MainCommand::StopDaemon)
        } else if str_eq(t, "RESTART WEBSOCKET") {
            Some(MainCommand::RestartWebsocket)
        } else {
            None
        }
    }
}

/// Reading back the text of a command gives the command: every command has
/// a text that `from_text` knows, and no two commands share one.
pub proof fn law_main_command_roundtrip(c: MainCommand)
    ensures
        c.spec_text() == "STOP"@ || c.spec_text() == "STOP DAEMON"@ || c.spec_text()
            == "RESTART WEBSOCKET"@,
        forall|d: MainCommand| #[trigger] d.spec_text() == c.spec_text() ==> d == c,
{
    reveal_strlit("STOP");
    reveal_strlit("STOP DAEMON");
    reveal_strlit("RESTART WEBSOCKET");
    assert("STOP"@.len() != "STOP DAEMON"@.len());
    assert("STOP"@.len() != "RESTART WEBSOCKET"@.len());
    assert("STOP DAEMON"@.len() != "RESTART WEBSOCKET"@.len());
}

/// Whether the daemon may start advertising `wdid`: not while it already
/// advertises it.
pub fn may_start_ad<A>(table: &StrMap<A>, wdid: &str) -> (b: bool)
    requires
        table.wf(),
    ensures
        b == !table.view().dom().contains(wdid@),
{
    table.get(wdid).is_none()
}

/// Stops advertising `wdid`: its entry leaves the table, and the actor that
/// served it is told to stop, with the whole daemon when no deployment is
/// left.  Nothing when the daemon does not advertise it.
pub fn stop_ad<A>(table: &mut StrMap<A>, wdid: &str) -> (r: Option<(A, MainCommand)>)
    requires
        old(table).wf(),
    ensures
        final(table).wf(),
        final(table).view() == old(table).view().remove(wdid@),
        match r {
            Some((a, c)) => old(table).view().dom().contains(wdid@) && a == old(table).view()[wdid@]
                && (c == if final(table).view().len() == 0 {
                MainCommand::StopDaemon
            } else {
                MainCommand::Stop
            }),
            None => !old(table).view().dom().contains(wdid@),
        },
{
    match table.remove(wdid) {
        Some(a) => {
            let c = if table.len() == 0 {
                MainCommand::StopDaemon
            } else {
                MainCommand::Stop
            };
            Some((a, c))
        },
        None => None,
    }
}

/// Stopping the advertisement of a deployment just started gives back the
/// table as it was.
pub proof fn law_stop_undoes_start<A>(table: Map<Seq<char>, A>, wdid: Seq<char>, a: A)
    requires
        !table.dom().contains(wdid),
    ensures
        table.insert(wdid, a).remove(wdid) == table,
{
    assert(table.insert(wdid, a).remove(wdid) =~= table);
}

/// The daemon's report: the deployments that it advertises.
pub fn daemon_status<A>(table: &StrMap<A>) -> (s: DaemonStatus)
    requires
        table.wf(),
    ensures
        strs(s.ad_deployments@) == table.key_seq(),
{
    let mut ids: Vec<String> = Vec::new();
    let mut i: usize = 0;
    let n = table.len();
    while i < n
        invariant
            n == table.key_seq().len(),
            i <= n,
            strs(ids@) == table.key_seq().subrange(0, i as int),
        decreases n - i,
    {
        let (k, _) = table.entry_at(i);
        let ghost before = ids@;
        assert(table.key_seq()[i as int] == k@);
        ids.push(k.clone());
        assert(strs(ids@) =~= strs(before).push(k@));
        i = i + 1;
        assert(strs(ids@) =~= table.key_seq().subrange(0, i as int));
    }
    assert(table.key_seq().subrange(0, n as int) =~= table.key_seq());
    DaemonStatus { ad_deployments: ids }
}

/// Why a message from the server was not taken as a command.
#[derive(Debug)]
pub enum WsRejection {
    /// No integer `v` field.
    NoVersion,
    /// A format version other than 0.
    UnknownVersion(i64),
    /// No string `cmd` field.
    NoCommand,
    /// The tunnel of a `CREATE_SSHTUN_DONE` could not be read; the error.
    BadTunnelInfo(String),
    /// A command that the worker does not know.
    UnknownCommand(String),
}

pub enum RejectionView {
    NoVersion,
    UnknownVersion(i64),
    NoCommand,
    BadTunnelInfo(Seq<char>),
    UnknownCommand(Seq<char>),
}

impl WsRejection {
    pub open spec fn view(&self) -> RejectionView {
        match self {
            WsRejection::NoVersion => RejectionView::NoVersion,
            WsRejection::UnknownVersion(v) => RejectionView::UnknownVersion(*v),
            WsRejection::NoCommand => RejectionView::NoCommand,
            WsRejection::BadTunnelInfo(e) => RejectionView::BadTunnelInfo(e@),
            WsRejection::UnknownCommand(c) => RejectionView::UnknownCommand(c@),
        }
    }
}

/// `payload[k].as_str()`.
pub open spec fn str_member(p: JsonValue, k: Seq<char>) -> Option<Seq<char>> {
    match member(p, k) {
        Some(JsonValue::Str(s)) => Some(s@),
        _ => None,
    }
}

/// `payload[k].as_i64()`.
pub open spec fn int_member(p: JsonValue, k: Seq<char>) -> Option<i64> {
    match member(p, k) {
        Some(JsonValue::Number(n)) => n.int,
        _ => None,
    }
}

/// A worker command as plain values: its kind, instance, message, public
/// key and tunnel; the connection is an SSH tunnel for a launch, and no
/// repository is given.
pub open spec fn command_view(c: CWorkerCommand) -> (
    CWorkerCommandType,
    Seq<char>,
    Option<Seq<char>>,
    Option<Seq<char>>,
    Option<TunnelInfo>,
) {
    (c.command, c.instance_id@, opt_str(c.message_id), opt_str(c.publickey), c.tunnelinfo)
}

/// The command that a message of format 0 carries, or why it carries none.
/// `tunnel` is the tunnel read from the whole message, needed only for
/// `CREATE_SSHTUN_DONE`.
pub open spec fn ws_spec(p: JsonValue, tunnel: Result<TunnelInfo, String>) -> Result<
    (CWorkerCommandType, Seq<char>, Option<Seq<char>>, Option<Seq<char>>, Option<TunnelInfo>),
    RejectionView,
> {
    match int_member(p, "v"@) {
        None => Err(RejectionView::NoVersion),
        Some(v) => if v != 0 {
            Err(RejectionView::UnknownVersion(v))
        } else {
            match str_member(p, "cmd"@) {
                None => Err(RejectionView::NoCommand),
                Some(c) => {
                    let id = str_member(p, "id"@)->0;
                    let mi = str_member(p, "mi"@);
                    if c == "INSTANCE_LAUNCH"@ {
                        Ok((CWorkerCommandType::InstanceLaunch, id, mi, str_member(p, "pr"@), None))
                    } else if c == "INSTANCE_STATUS"@ {
                        Ok((CWorkerCommandType::InstanceStatus, id, mi, None, None))
                    } else if c == "INSTANCE_DESTROY"@ {
                        Ok((CWorkerCommandType::InstanceDestroy, id, mi, None, None))
                    } else if c == "CREATE_SSHTUN_DONE"@ {
                        match tunnel {
                            Ok(t) => Ok((CWorkerCommandType::CreateSshTunDone, id, mi, None, Some(t))),
                            Err(e) => Err(RejectionView::BadTunnelInfo(e@)),
                        }
                    } else {
                        Err(RejectionView::UnknownCommand(c))
                    }
                },
            }
        },
    }
}

/// The fields that a command of format 0 must have as strings: `id` and
/// `mi`, and `pr` for a launch (the worker stops on a message without them).
pub open spec fn ws_fields_present(p: JsonValue, tunnel_read: bool) -> bool {
    int_member(p, "v"@) == Some(0i64) ==> match str_member(p, "cmd"@) {
        Some(c) => ((c == "INSTANCE_LAUNCH"@ || c == "INSTANCE_STATUS"@ || c == "INSTANCE_DESTROY"@
            || (c == "CREATE_SSHTUN_DONE"@ && tunnel_read)) ==> (str_member(p, "id"@) is Some
            && str_member(p, "mi"@) is Some)) && (c == "INSTANCE_LAUNCH"@ ==> str_member(p, "pr"@) is Some),
        None => true,
    }
}

fn str_field<'a>(p: &'a JsonValue, k: &str) -> (r: Option<&'a String>)
    ensures
        match r {
            Some(s) => str_member(*p, k@) == Some(s@),
            None => str_member(*p, k@) is None,
        },
{
    match p.get(k) {
        Some(JsonValue::Str(s)) => Some(s),
        _ => None,
    }
}

/// Reads the command that the server sent in a WebSocket message.
pub fn ws_command(payload: &JsonValue, tunnel: Result<TunnelInfo, String>) -> (r: Result<
    CWorkerCommand,
    WsRejection,
>)
    requires
        ws_fields_present(*payload, tunnel is Ok),
    ensures
        match ws_spec(*payload, tunnel) {
            Ok(v) => r matches Ok(c) && command_view(c) == v && (c.command
                == CWorkerCommandType::InstanceLaunch ==> c.conntype == Some(ConnType::SshTun))
                && (c.command != CWorkerCommandType::InstanceLaunch ==> c.conntype is None)
                && c.repo_args is None,
            Err(e) => r matches Err(x) && x.view() == e,
        },
{
    let v = match payload.get("v") {
        Some(JsonValue::Number(n)) => n.int,
        _ => None,
    };
    let v = match v {
        Some(v) => v,
        None => {
            return Err(WsRejection::NoVersion);
        },
    };
    if v != 0 {
        return Err(WsRejection::UnknownVersion(v));
    }
    let cmd = match str_field(payload, "cmd") {
        Some(c) => c,
        None => {
            return Err(WsRejection::NoCommand);
        },
    };
    if str_eq(cmd.as_str(), "INSTANCE_LAUNCH") {
        let id = str_field(payload, "id").unwrap();
        let mi = str_field(payload, "mi").unwrap();
        let pr = str_field(payload, "pr").unwrap();
        Ok(
            CWorkerCommand::launch_instance(
                id.as_str(),
                mi.as_str(),
                ConnType::SshTun,
                pr.as_str(),
                None,
                None,
            ),
        )
    } else if str_eq(cmd.as_str(), "INSTANCE_STATUS") {
        let id = str_field(payload, "id").unwrap();
        let mi = str_field(payload, "mi").unwrap();
        Ok(CWorkerCommand::get_status(id.as_str(), mi.as_str()))
    } else if str_eq(cmd.as_str(), "INSTANCE_DESTROY") {
        let id = str_field(payload, "id").unwrap();
        let mi = str_field(payload, "mi").unwrap();
        Ok(CWorkerCommand::destroy_instance(id.as_str(), mi.as_str()))
    } else if str_eq(cmd.as_str(), "CREATE_SSHTUN_DONE") {
        match tunnel {
            Ok(t) => {
                let id = str_field(payload, "id").unwrap();
                let mi = str_field(payload, "mi").unwrap();
                Ok(CWorkerCommand::create_sshtun_done(id.as_str(), mi.as_str(), &t))
            },
            Err(e) => Err(WsRejection::BadTunnelInfo(e)),
        }
    } else {
        Err(WsRejection::UnknownCommand(cmd.clone()))
    }
}

/// The add-ons that a deployment record enables (`supported_addons`), when
/// it is an array of strings.
pub open spec fn supported_of(payload: JsonValue) -> Option<Seq<Seq<char>>> {
    match member(payload, "supported_addons"@) {
        Some(v) => str_list_of(v),
        None => None,
    }
}

/// The entries of an object without those with key `k`.
pub open spec fn without_key(es: Seq<(String, JsonValue)>, k: Seq<char>) -> Seq<(String, JsonValue)> {
    es.filter(|e: (String, JsonValue)| e.0@ != k)
}

/// Reads the strings of a JSON array.
fn strings_of(a: &Vec<JsonValue>) -> (r: Vec<String>)
    requires
        forall|i: int| 0 <= i < a@.len() ==> (#[trigger] a@[i]) is Str,
    ensures
        str_list_of(JsonValue::Array(*a)) == Some(strs(r@)),
{
    let mut r: Vec<String> = Vec::new();
    let mut i: usize = 0;
    while i < a.len()
        invariant
            i <= a@.len(),
            forall|j: int| 0 <= j < a@.len() ==> (#[trigger] a@[j]) is Str,
            strs(r@) == Seq::new(i as nat, |j: int| str_of(a@[j])->0),
        decreases a@.len() - i,
    {
        let ghost before = r@;
        match &a[i] {
            JsonValue::Str(x) => {
                assert(str_of(a@[i as int]) == Some(x@));
                r.push(x.clone());
                assert(strs(r@) =~= strs(before).push(x@));
            },
            _ => {
                r.push(String::new());
            },
        }
        i = i + 1;
        assert(strs(r@) =~= Seq::new(i as nat, |j: int| str_of(a@[j])->0));
    }
    r
}

/// The strings as a JSON array.
fn array_of(v: Vec<String>) -> (r: JsonValue)
    ensures
        str_list_of(r) == Some(strs(v@)),
{
    let mut a: Vec<JsonValue> = Vec::new();
    let ghost src = v@;
    let mut v = v;
    let mut i: usize = 0;
    let n = v.len();
    while i < n
        invariant
            n == src.len(),
            i <= n,
            v@ == src.subrange(i as int, n as int),
            a@.len() == i,
            forall|j: int| 0 <= j < i ==> (#[trigger] a@[j]) is Str && str_of(a@[j]) == Some(src[j]@),
        decreases n - i,
    {
        let x = v.remove(0);
        a.push(JsonValue::Str(x));
        i = i + 1;
        assert(v@ =~= src.subrange(i as int, n as int));
    }
    let r = JsonValue::Array(a);
    assert(str_list_of(r) == Some(strs(src))) by {
        assert(Seq::new(a@.len(), |j: int| str_of(a@[j])->0) =~= strs(src));
    }
    r
}

/// Takes the first entry with key `k` out of an object's entries.
fn take_entry(es: &mut Vec<(String, JsonValue)>, k: &str) -> (r: Option<JsonValue>)
    ensures
        match lookup(old(es)@, k@) {
            Some(v) => r == Some(v) && exists|i: int|
                0 <= i < old(es)@.len() && old(es)@[i].0@ == k@ && final(es)@ == old(es)@.remove(i),
            None => r is None && final(es)@ == old(es)@,
        },
{
    let mut i: usize = 0;
    assert(es@.subrange(0, es@.len() as int) =~= es@);
    while i < es.len()
        invariant
            i <= es@.len(),
            es@ == old(es)@,
            lookup(es@, k@) == lookup(es@.subrange(i as int, es@.len() as int), k@),
        decreases es@.len() - i,
    {
        let ghost rest = es@.subrange(i as int, es@.len() as int);
        assert(rest[0] == es@[i as int]);
        if crate::text::str_eq(es[i].0.as_str(), k) {
            let (_key, v) = es.remove(i);
            return Some(v);
        }
        assert(rest.drop_first() =~= es@.subrange(i + 1, es@.len() as int));
        i = i + 1;
    }
    None
}

/// Removes every entry with key `k` from an object's entries.
fn drop_key(es: Vec<(String, JsonValue)>, k: &str) -> (r: Vec<(String, JsonValue)>)
    ensures
        r@ == without_key(es@, k@),
{
    let ghost src = es@;
    let mut es = es;
    let mut r: Vec<(String, JsonValue)> = Vec::new();
    let n = es.len();
    let mut i: usize = 0;
    while i < n
        invariant
            n == src.len(),
            i <= n,
            es@ == src.subrange(i as int, n as int),
            r@ == without_key(src.subrange(0, i as int), k@),
        decreases n - i,
    {
        let e = es.remove(0);
        proof {
            reveal(Seq::filter);
            let pre = src.subrange(0, i + 1);
            assert(pre.drop_last() =~= src.subrange(0, i as int));
            assert(pre.last() == src[i as int]);
        }
        if !crate::text::str_eq(e.0.as_str(), k) {
            r.push(e);
        }
        i = i + 1;
        assert(es@ =~= src.subrange(i as int, n as int));
    }
    assert(src.subrange(0, n as int) =~= src);
    r
}

/// Sets key `k` of an object's entries to `v`: the first entry with that
/// key gets the value, or a new entry goes at the end.
fn set_entry(es: &mut Vec<(String, JsonValue)>, k: &str, v: JsonValue)
    ensures
        lookup(final(es)@, k@) == Some(v),
        forall|k2: Seq<char>| k2 != k@ ==> lookup(final(es)@, k2) == lookup(old(es)@, k2),
{
    let mut i: usize = 0;
    while i < es.len()
        invariant
            i <= es@.len(),
            es@ == old(es)@,
            forall|j: int| 0 <= j < i ==> (#[trigger] es@[j]).0@ != k@,
        decreases es@.len() - i,
    {
        if crate::text::str_eq(es[i].0.as_str(), k) {
            let (key, _old) = es.remove(i);
            es.insert(i, (key, v));
            proof {
                lemma_lookup_set(old(es)@, i as int, es@);
            }
            return;
        }
        i = i + 1;
    }
    es.push((owned(k), v));
    proof {
        lemma_lookup_push(old(es)@, es@);
    }
}

proof fn lemma_lookup_set(old_es: Seq<(String, JsonValue)>, i: int, new_es: Seq<(String, JsonValue)>)
    requires
        0 <= i < old_es.len(),
        new_es.len() == old_es.len(),
        forall|j: int| 0 <= j < i ==> (#[trigger] old_es[j]).0@ != old_es[i].0@,
        forall|j: int| 0 <= j < old_es.len() && j != i ==> new_es[j] == old_es[j],
        new_es[i].0@ == old_es[i].0@,
    ensures
        lookup(new_es, old_es[i].0@) == Some(new_es[i].1),
        forall|k2: Seq<char>| k2 != old_es[i].0@ ==> lookup(new_es, k2) == lookup(old_es, k2),
    decreases old_es.len(),
{
    if i == 0 {
        assert(new_es.drop_first() =~= old_es.drop_first());
        assert forall|k2: Seq<char>| k2 != old_es[i].0@ implies lookup(new_es, k2) == lookup(
            old_es,
            k2,
        ) by {
            assert(new_es[0].0@ != k2);
            assert(lookup(new_es, k2) == lookup(new_es.drop_first(), k2));
            assert(lookup(old_es, k2) == lookup(old_es.drop_first(), k2));
        }
    } else {
        let o = old_es.drop_first();
        let n = new_es.drop_first();
        assert(o[i - 1] == old_es[i]);
        assert(n[i - 1] == new_es[i]);
        assert forall|j: int| 0 <= j < i - 1 implies (#[trigger] o[j]).0@ != o[i - 1].0@ by {
            assert(o[j] == old_es[j + 1]);
        }
        assert forall|j: int| 0 <= j < o.len() && j != i - 1 implies n[j] == o[j] by {
            assert(n[j] == new_es[j + 1]);
            assert(o[j] == old_es[j + 1]);
        }
        lemma_lookup_set(o, i - 1, n);
        assert(new_es[0] == old_es[0]);
        assert forall|k2: Seq<char>| k2 != old_es[i].0@ implies lookup(new_es, k2) == lookup(
            old_es,
            k2,
        ) by {
            if new_es[0].0@ != k2 {
                assert(lookup(new_es, k2) == lookup(n, k2));
                assert(lookup(old_es, k2) == lookup(o, k2));
            }
        }
    }
}

proof fn lemma_lookup_push(old_es: Seq<(String, JsonValue)>, new_es: Seq<(String, JsonValue)>)
    requires
        new_es.len() == old_es.len() + 1,
        forall|j: int| 0 <= j < old_es.len() ==> new_es[j] == old_es[j],
        forall|j: int| 0 <= j < old_es.len() ==> (#[trigger] old_es[j]).0@ != new_es.last().0@,
    ensures
        lookup(new_es, new_es.last().0@) == Some(new_es.last().1),
        forall|k2: Seq<char>| k2 != new_es.last().0@ ==> lookup(new_es, k2) == lookup(old_es, k2),
    decreases old_es.len(),
{
    if old_es.len() == 0 {
        assert(new_es.drop_first().len() == 0);
        assert forall|k2: Seq<char>| k2 != new_es.last().0@ implies lookup(new_es, k2) == lookup(
            old_es,
            k2,
        ) by {
            assert(new_es[0] == new_es.last());
            assert(lookup(new_es, k2) == lookup(new_es.drop_first(), k2));
        }
    } else {
        let o = old_es.drop_first();
        let n = new_es.drop_first();
        assert(n.last() == new_es.last());
        assert forall|j: int| 0 <= j < o.len() implies n[j] == o[j] by {
            assert(n[j] == new_es[j + 1]);
            assert(o[j] == old_es[j + 1]);
        }
        assert forall|j: int| 0 <= j < o.len() implies (#[trigger] o[j]).0@ != n.last().0@ by {
            assert(o[j] == old_es[j + 1]);
        }
        lemma_lookup_push(o, n);
        assert(new_es[0] == old_es[0]);
        assert forall|k2: Seq<char>| k2 != new_es.last().0@ implies lookup(new_es, k2) == lookup(
            old_es,
            k2,
        ) by {
            if new_es[0].0@ != k2 {
                assert(lookup(new_es, k2) == lookup(n, k2));
                assert(lookup(old_es, k2) == lookup(o, k2));
            }
        }
    }
}

/// What `addons_config` holds after enabling an add-on with configuration
/// `c` on a record without `addons_config`: the server gets the object
/// `{"addons_config": {<add-on>: c}}`.
pub open spec fn fresh_addons_config(v: JsonValue, name: Seq<char>, c: JsonValue) -> bool {
    match v {
        JsonValue::Object(es) => es@.len() == 1 && es@[0].0@ == "addons_config"@ && match es@[0].1 {
            JsonValue::Object(inner) => inner@.len() == 1 && inner@[0].0@ == name && inner@[0].1 == c,
            _ => false,
        },
        _ => false,
    }
}

/// The update that enables `addon` on a deployment whose record the server
/// sent as `payload`, with the add-on's configuration when `config` gives
/// one: the enabled add-ons, and the configuration of the add-ons.
pub fn upsert_update(payload: JsonValue, addon: AddOn, config: Option<JsonValue>) -> (r: StrMap<
    JsonValue,
>)
    requires
        payload is Object,
        supported_of(payload) is Some,
        config is Some ==> (member(payload, "addons_config"@) matches Some(ac) ==> ac is Object),
    ensures
        r.wf(),
        r.key_seq() == if member(payload, "addons_config"@) is Some || config is Some {
            seq!["supported_addons"@, "addons_config"@]
        } else {
            seq!["supported_addons"@]
        },
        str_list_of(r.view()["supported_addons"@]) == Some(
            with_addon_spec(supported_of(payload)->0, addon.spec_name()),
        ),
        match (member(payload, "addons_config"@), config) {
            (Some(ac), None) => r.view()["addons_config"@] == ac,
            (Some(ac), Some(c)) => match (ac, r.view()["addons_config"@]) {
                (JsonValue::Object(old_es), JsonValue::Object(es)) => lookup(es@, addon.spec_name())
                    == Some(c) && forall|k: Seq<char>|
                    k != addon.spec_name() ==> lookup(es@, k) == lookup(old_es@, k),
                _ => false,
            },
            (None, Some(c)) => fresh_addons_config(r.view()["addons_config"@], addon.spec_name(), c),
            (None, None) => true,
        },
{
    let ghost p = payload;
    let mut es = match payload {
        JsonValue::Object(es) => es,
        _ => Vec::new(),
    };
    let supported = match crate::json::lookup_entry(&es, "supported_addons") {
        Some(JsonValue::Array(a)) => strings_of(a),
        _ => Vec::new(),
    };
    let list = with_addon(&supported, addon);
    let mut update: StrMap<JsonValue> = StrMap::new();
    update.insert(owned("supported_addons"), array_of(list));
    let ghost after_first = update.key_seq();
    assert(after_first =~= seq!["supported_addons"@]);
    let taken = take_entry(&mut es, "addons_config");
    proof {
        reveal_strlit("supported_addons");
        reveal_strlit("addons_config");
        assert("supported_addons"@.len() != "addons_config"@.len());
    }
    match taken {
        Some(ac) => {
            match config {
                None => {
                    update.insert(owned("addons_config"), ac);
                },
                Some(c) => {
                    match ac {
                        JsonValue::Object(mut aes) => {
                            set_entry(&mut aes, addon.name(), c);
                            update.insert(owned("addons_config"), JsonValue::Object(aes));
                        },
                        other => {
                            update.insert(owned("addons_config"), other);
                        },
                    }
                },
            }
        },
        None => {
            match config {
                None => {},
                Some(c) => {
                    let mut inner: Vec<(String, JsonValue)> = Vec::new();
                    inner.push((owned(addon.name()), c));
                    let mut outer: Vec<(String, JsonValue)> = Vec::new();
                    outer.push((owned("addons_config"), JsonValue::Object(inner)));
                    update.insert(owned("addons_config"), JsonValue::Object(outer));
                },
            }
        },
    }
    proof {
        update.lemma_view();
    }
    update
}

/// The update that disables `addon` on a deployment whose record the server
/// sent as `payload`: the enabled add-ons without it, and the configuration
/// of the add-ons without its entry.  Nothing when it is not enabled.
pub fn remove_update(payload: JsonValue, addon: AddOn) -> (r: Option<StrMap<JsonValue>>)
    requires
        payload is Object,
        supported_of(payload) is Some,
        supported_of(payload)->0.contains(addon.spec_name()) ==> (member(payload, "addons_config"@) matches Some(
            ac,
        ) ==> ac is Object),
    ensures
        match without_addon_spec(supported_of(payload)->0, addon.spec_name()) {
            None => r is None,
            Some(l) => match r {
                Some(u) => u.wf() && str_list_of(u.view()["supported_addons"@]) == Some(l)
                    && match member(payload, "addons_config"@) {
                    Some(ac) => u.key_seq() == seq!["addons_config"@, "supported_addons"@] && match (
                        ac,
                        u.view()["addons_config"@],
                    ) {
                        (JsonValue::Object(old_es), JsonValue::Object(es)) => es@ == without_key(
                            old_es@,
                            addon.spec_name(),
                        ),
                        _ => false,
                    },
                    None => u.key_seq() == seq!["supported_addons"@],
                },
                None => false,
            },
        },
{
    let mut es = match payload {
        JsonValue::Object(es) => es,
        _ => Vec::new(),
    };
    let supported = match crate::json::lookup_entry(&es, "supported_addons") {
        Some(JsonValue::Array(a)) => strings_of(a),
        _ => Vec::new(),
    };
    let list = match without_addon(&supported, addon) {
        Some(l) => l,
        None => {
            return None;
        },
    };
    proof {
        crate::cli::lemma_first_pos(strs(supported@), addon.spec_name());
        reveal_strlit("supported_addons");
        reveal_strlit("addons_config");
        assert("supported_addons"@.len() != "addons_config"@.len());
    }
    let mut update: StrMap<JsonValue> = StrMap::new();
    match take_entry(&mut es, "addons_config") {
        Some(ac) => {
            match ac {
                JsonValue::Object(aes) => {
                    let kept = drop_key(aes, addon.name());
                    update.insert(owned("addons_config"), JsonValue::Object(kept));
                },
                other => {
                    update.insert(owned("addons_config"), other);
                },
            }
        },
        None => {},
    }
    update.insert(owned("supported_addons"), array_of(list));
    proof {
        update.lemma_view();
    }
    Some(update)
}

/// Whether the add-on named `name` is among the strings of `a`, looking in
/// order and stopping at the first match; nothing when a value before the
/// first match is not a string (the client stops there).
pub open spec fn addon_listed(a: Seq<JsonValue>, name: Seq<char>) -> Option<bool>
    decreases a.len(),
{
    if a.len() == 0 {
        Some(false)
    } else {
        match a[0] {
            JsonValue::Str(x) => if x@ == name {
                Some(true)
            } else {
                addon_listed(a.drop_first(), name)
            },
            _ => None,
        }
    }
}

/// The configuration of an add-on that the record of a deployment holds.
pub open spec fn addon_config_spec(payload: JsonValue, name: Seq<char>) -> JsonValue {
    match member(payload, "addons_config"@) {
        Some(JsonValue::Object(es)) => match lookup(es@, name) {
            Some(v) => v,
            None => JsonValue::Null,
        },
        _ => JsonValue::Null,
    }
}

fn listed_in(a: &Vec<JsonValue>, name: &str) -> (b: bool)
    requires
        addon_listed(a@, name@) is Some,
    ensures
        addon_listed(a@, name@) == Some(b),
{
    let mut i: usize = 0;
    assert(a@.subrange(0, a@.len() as int) =~= a@);
    while i < a.len()
        invariant
            i <= a@.len(),
            addon_listed(a@, name@) is Some,
            addon_listed(a@, name@) == addon_listed(a@.subrange(i as int, a@.len() as int), name@),
        decreases a@.len() - i,
    {
        let ghost rest = a@.subrange(i as int, a@.len() as int);
        assert(rest[0] == a@[i as int]);
        assert(rest.drop_first() =~= a@.subrange(i + 1, a@.len() as int));
        match &a[i] {
            JsonValue::Str(x) => {
                if crate::text::str_eq(x.as_str(), name) {
                    return true;
                }
            },
            _ => {
                assert(addon_listed(rest, name@) is None);
                return false;
            },
        }
        i = i + 1;
    }
    false
}

/// The configuration of `addon` in the record of a deployment, if the
/// add-on is enabled.
pub fn addon_config(payload: JsonValue, addon: AddOn) -> (r: Result<JsonValue, String>)
    requires
        member(payload, "supported_addons"@) matches Some(JsonValue::Array(a)) && addon_listed(
            a@,
            addon.spec_name(),
        ) is Some,
        match member(payload, "addons_config"@) {
            Some(JsonValue::Null) | Some(JsonValue::Object(_)) | None => true,
            _ => false,
        },
    ensures
        match member(payload, "supported_addons"@) {
            Some(JsonValue::Array(a)) => if addon_listed(a@, addon.spec_name()) == Some(true) {
                r == Ok::<JsonValue, String>(addon_config_spec(payload, addon.spec_name()))
            } else {
                r matches Err(e) && e@ == "add-on "@ + addon.spec_name() + " is not enabled"@
            },
            _ => false,
        },
{
    let mut es = match payload {
        JsonValue::Object(es) => es,
        _ => Vec::new(),
    };
    let enabled = match crate::json::lookup_entry(&es, "supported_addons") {
        Some(JsonValue::Array(a)) => listed_in(a, addon.name()),
        _ => false,
    };
    if !enabled {
        return Err(concat3("add-on ", addon.name(), " is not enabled"));
    }
    match take_entry(&mut es, "addons_config") {
        Some(JsonValue::Object(mut aes)) => match take_entry(&mut aes, addon.name()) {
            Some(v) => Ok(v),
            None => Ok(JsonValue::Null),
        },
        _ => Ok(JsonValue::Null),
    }
}

} // verus!
