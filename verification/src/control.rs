//! The instance worker: the state of the current instance, the commands that
//! arrive from the server, and what the worker answers and starts for each.
use vstd::prelude::*;
use crate::mgmt::{opt_str, clone_opt};
use crate::numbers::{decimal, u64_to_string};
use crate::strmap::StrMap;
use crate::text::{owned, concat2};

verus! {

#[derive(Debug, Clone, Copy, PartialEq, Eq, Structural)]
pub enum InstanceStatus {
    Init,
    InitFail,
    Ready,
    Terminating,
    Fault,
}

impl InstanceStatus {
    pub open spec fn spec_name(&self) -> Seq<char> {
        match self {
            InstanceStatus::Init => "INIT"@,
            InstanceStatus::InitFail => "INIT_FAIL"@,
            InstanceStatus::Ready => "READY"@,
            InstanceStatus::Terminating => "TERMINATING"@,
            InstanceStatus::Fault => "FAULT"@,
        }
    }

    /// The name of the status in messages to the server.
    pub fn name(&self) -> (s: &'static str)
        ensures
            s@ == self.spec_name(),
    {
        match self {
            InstanceStatus::Init => "INIT",
            InstanceStatus::InitFail => "INIT_FAIL",
            InstanceStatus::Ready => "READY",
            InstanceStatus::Terminating => "TERMINATING",
            InstanceStatus::Fault => "FAULT",
        }
    }
}

#[derive(Debug, Clone, Copy, PartialEq, Eq, Structural)]
pub enum ConnType {
    SshTun,
}

/// Where the server opened the public end of an SSH tunnel.
#[derive(Debug)]
pub struct TunnelInfo {
    pub hostkey: String,
    pub ipv4: String,
    pub port: u32,
    pub thport: u32,
    pub thuser: String,
}

impl TunnelInfo {
    pub fn duplicate(&self) -> (r: Self)
        ensures
            r == *self,
    {
        TunnelInfo {
            hostkey: self.hostkey.clone(),
            ipv4: self.ipv4.clone(),
            port: self.port,
            thport: self.thport,
            thuser: self.thuser.clone(),
        }
    }
}

/// A repository to clone into a new instance, and a command to run in it.
#[derive(Debug)]
pub struct RepoInfo {
    pub url: String,
    pub path: Option<String>,
}

#[derive(Debug, Clone, Copy, PartialEq, Eq, Structural)]
pub enum CWorkerCommandType {
    InstanceLaunch,
    InstanceDestroy,
    InstanceStatus,
    CreateSshTunDone,
}

/// A command from the server to the instance worker.
#[derive(Debug)]
pub struct CWorkerCommand {
    pub command: CWorkerCommandType,
    pub instance_id: String,
    pub conntype: Option<ConnType>,
    pub publickey: Option<String>,
    pub tunnelinfo: Option<TunnelInfo>,
    pub message_id: Option<String>,
    pub repo_args: Option<RepoInfo>,
}

impl CWorkerCommand {
    pub fn duplicate(&self) -> (r: Self)
        ensures
            r == *self,
    {
        CWorkerCommand {
            command: self.command,
            instance_id: self.instance_id.clone(),
            conntype: self.conntype,
            publickey: clone_opt(&self.publickey),
            tunnelinfo: match &self.tunnelinfo {
                Some(t) => Some(t.duplicate()),
                None => None,
            },
            message_id: clone_opt(&self.message_id),
            repo_args: match &self.repo_args {
                Some(r) => Some(RepoInfo { url: r.url.clone(), path: clone_opt(&r.path) }),
                None => None,
            },
        }
    }

    /// A request for the status of an instance.
    pub fn get_status(instance_id: &str, message_id: &str) -> (c: CWorkerCommand)
        ensures
            c.command == CWorkerCommandType::InstanceStatus,
            c.instance_id@ == instance_id@,
            c.conntype is None,
            c.publickey is None,
            c.tunnelinfo is None,
            opt_str(c.message_id) == Some(message_id@),
            c.repo_args is None,
    {
        CWorkerCommand {
            command: CWorkerCommandType::InstanceStatus,
            instance_id: owned(instance_id),
            conntype: None,
            publickey: None,
            tunnelinfo: None,
            message_id: Some(owned(message_id)),
            repo_args: None,
        }
    }

    /// A request to launch an instance, optionally from a repository.
    pub fn launch_instance(
        instance_id: &str,
        message_id: &str,
        conntype: ConnType,
        public_key: &str,
        repo_url: Option<&str>,
        repo_path: Option<&str>,
    ) -> (c: CWorkerCommand)
        ensures
            c.command == CWorkerCommandType::InstanceLaunch,
            c.instance_id@ == instance_id@,
            c.conntype == Some(conntype),
            opt_str(c.publickey) == Some(public_key@),
            c.tunnelinfo is None,
            opt_str(c.message_id) == Some(message_id@),
            match repo_url {
                Some(u) => c.repo_args matches Some(r) && r.url@ == u@ && opt_str(r.path) == (
                match repo_path {
                    Some(p) => Some(p@),
                    None => None,
                }),
                None => c.repo_args is None,
            },
    {
        let repo_args = match repo_url {
            Some(u) => Some(
                RepoInfo {
                    url: owned(u),
                    path: match repo_path {
                        Some(p) => Some(owned(p)),
                        None => None,
                    },
                },
            ),
            None => None,
        };
        CWorkerCommand {
            command: CWorkerCommandType::InstanceLaunch,
            instance_id: owned(instance_id),
            conntype: Some(conntype),
            publickey: Some(owned(public_key)),
            tunnelinfo: None,
            message_id: Some(owned(message_id)),
            repo_args,
        }
    }

    /// A request to destroy an instance.
    pub fn destroy_instance(instance_id: &str, message_id: &str) -> (c: CWorkerCommand)
        ensures
            c.command == CWorkerCommandType::InstanceDestroy,
            c.instance_id@ == instance_id@,
            c.conntype is None,
            c.publickey is None,
            c.tunnelinfo is None,
            opt_str(c.message_id) == Some(message_id@),
            c.repo_args is None,
    {
        CWorkerCommand {
            command: CWorkerCommandType::InstanceDestroy,
            instance_id: owned(instance_id),
            conntype: None,
            publickey: None,
            tunnelinfo: None,
            message_id: Some(owned(message_id)),
            repo_args: None,
        }
    }

    /// The server's answer that it created the SSH tunnel.
    pub fn create_sshtun_done(instance_id: &str, message_id: &str, tunnelinfo: &TunnelInfo) -> (c:
        Self)
        ensures
            c.command == CWorkerCommandType::CreateSshTunDone,
            c.instance_id@ == instance_id@,
            c.conntype is None,
            c.publickey is None,
            c.tunnelinfo == Some(*tunnelinfo),
            opt_str(c.message_id) == Some(message_id@),
            c.repo_args is None,
    {
        CWorkerCommand {
            command: CWorkerCommandType::CreateSshTunDone,
            instance_id: owned(instance_id),
            conntype: None,
            publickey: None,
            tunnelinfo: Some(tunnelinfo.duplicate()),
            message_id: Some(owned(message_id)),
            repo_args: None,
        }
    }
}

/// The response table after a response arrives, or why it is refused.
pub open spec fn response_step(
    table: Map<Seq<char>, Option<CWorkerCommand>>,
    res: CWorkerCommand,
) -> Result<Map<Seq<char>, Option<CWorkerCommand>>, Seq<char>> {
    match res.message_id {
        None => Err("missing message_id"@),
        Some(mi) => if !table.dom().contains(mi@) {
            Err("unknown message "@ + mi@)
        } else if table[mi@] is Some {
            Err("already handled message "@ + mi@)
        } else {
            Ok(table.insert(mi@, Some(res)))
        },
    }
}

/// Answer to a request to terminate, and the status after it.
pub open spec fn terminate_step(status: Option<InstanceStatus>) -> (
    Result<bool, Seq<char>>,
    Option<InstanceStatus>,
) {
    match status {
        None => (Err("terminate() called when no active instance"@), None),
        Some(s) => if s == InstanceStatus::Terminating {
            (Ok(false), status)
        } else if s == InstanceStatus::Init || s == InstanceStatus::InitFail {
            (Err("cannot terminate when status is "@ + s.spec_name()), status)
        } else {
            (Ok(true), Some(InstanceStatus::Terminating))
        },
    }
}

/// The steps of launching an instance.
#[derive(Debug, Clone, Copy, PartialEq, Eq, Structural)]
pub enum LaunchStep {
    /// Start the container (or proxy), then see that no abort was asked.
    Container,
    /// Clone the repository into the container.
    Clone,
    /// Run the repository's script in the container.
    RunScript,
    /// Open the SSH tunnel.
    Tunnel,
}

/// The steps of a launch, in order: the container; with a repository, its
/// clone and, with a script path, the script; last the tunnel.
pub open spec fn launch_plan(repo: bool, script: bool) -> Seq<LaunchStep> {
    seq![LaunchStep::Container] + if repo {
        if script {
            seq![LaunchStep::Clone, LaunchStep::RunScript]
        } else {
            seq![LaunchStep::Clone]
        }
    } else {
        seq![]
    } + seq![LaunchStep::Tunnel]
}

/// A launch under way: its plan, how many steps succeeded, and the error of
/// the step that failed, after which no step runs.
#[derive(Debug)]
pub struct LaunchRun {
    pub plan: Vec<LaunchStep>,
    pub done: usize,
    pub failure: Option<String>,
}

/// The step to run next: the first not yet run, unless one failed.
pub open spec fn launch_next(r: LaunchRun) -> Option<LaunchStep> {
    if r.failure is None && r.done < r.plan@.len() {
        Some(r.plan@[r.done as int])
    } else {
        None
    }
}

impl LaunchRun {
    /// A launch of which no step has run yet.
    pub fn new(repo: bool, script: bool) -> (r: LaunchRun)
        ensures
            r.plan@ == launch_plan(repo, script),
            r.done == 0,
            r.failure is None,
    {
        let mut plan: Vec<LaunchStep> = Vec::new();
        plan.push(LaunchStep::Container);
        if repo {
            plan.push(LaunchStep::Clone);
            if script {
                plan.push(LaunchStep::RunScript);
            }
        }
        plan.push(LaunchStep::Tunnel);
        assert(plan@ =~= launch_plan(repo, script));
        LaunchRun { plan, done: 0, failure: None }
    }

    /// The step to run next, if any.
    pub fn next(&self) -> (s: Option<LaunchStep>)
        ensures
            s == launch_next(*self),
    {
        if self.failure.is_none() && self.done < self.plan.len() {
            Some(self.plan[self.done])
        } else {
            None
        }
    }

    /// Notes the result of the step that `next` gave.
    pub fn record(&mut self, result: Result<(), String>)
        requires
            launch_next(*old(self)) is Some,
        ensures
            final(self).plan == old(self).plan,
            final(self).done == old(self).done + 1,
            match result {
                Ok(_) => final(self).failure is None,
                Err(e) => final(self).failure == Some(e),
            },
    {
        let n = self.plan.len();
        assert(self.done < n);
        self.done = self.done + 1;
        if let Err(e) = result {
            self.failure = Some(e);
        }
    }

    /// The result of a launch that has no step left: the error of the step
    /// that failed, if one did; success only once every planned step ran.
    pub fn outcome(&self) -> (r: Result<(), String>)
        requires
            launch_next(*self) is None,
        ensures
            match self.failure {
                Some(e) => r == Err::<(), String>(e),
                None => r is Ok && self.done >= self.plan@.len(),
            },
    {
        match &self.failure {
            Some(e) => Err(e.clone()),
            None => Ok(()),
        }
    }
}

/// State of the current instance that the worker and the launch and destroy
/// threads share: its status, its ID, the local name of its container, and
/// the table of messages sent to the server with the responses received.
#[derive(Debug)]
pub struct InstanceState {
    pub status: Option<InstanceStatus>,
    pub id: Option<String>,
    pub local_name: Option<String>,
    pub responses: StrMap<Option<CWorkerCommand>>,
}

/// `rand::random::<u16>()`.  Nothing is claimed of the value.
#[verifier::external_body]
fn random_u16() -> u16 {
    rand::random::<u16>()
}

impl InstanceState {
    pub open spec fn wf(&self) -> bool {
        self.responses.wf()
    }

    /// No instance.
    pub fn new() -> (s: Self)
        ensures
            s.wf(),
            s.status is None,
            s.id is None,
            s.local_name is None,
            s.responses.view().len() == 0,
    {
        InstanceState { status: None, id: None, local_name: None, responses: StrMap::new() }
    }

    /// Whether an instance is current.
    pub fn has_instance(&self) -> (b: bool)
        ensures
            b == self.status is Some,
    {
        self.status.is_some()
    }

    pub fn status(&self) -> (s: Option<InstanceStatus>)
        ensures
            s == self.status,
    {
        self.status
    }

    pub fn declare_status(&mut self, new_status: InstanceStatus)
        ensures
            final(self).status == Some(new_status),
            final(self).id == old(self).id,
            final(self).local_name == old(self).local_name,
            final(self).responses == old(self).responses,
    {
        self.status = Some(new_status);
    }

    /// Ends the launch of an instance: ready when every step of the launch
    /// (container, repository, tunnel) succeeded, else failed to start.
    pub fn finish_launch(&mut self, outcome: &Result<(), String>) -> (s: InstanceStatus)
        ensures
            s == (if outcome is Ok {
                InstanceStatus::Ready
            } else {
                InstanceStatus::InitFail
            }),
            final(self).status == Some(s),
            final(self).id == old(self).id,
            final(self).local_name == old(self).local_name,
            final(self).responses == old(self).responses,
    {
        let s = match outcome {
            Ok(()) => InstanceStatus::Ready,
            Err(_) => InstanceStatus::InitFail,
        };
        self.status = Some(s);
        s
    }

    /// Forgets the status, unless it is a fault.
    pub fn clear_status(&mut self)
        ensures
            final(self).status == if old(self).status == Some(InstanceStatus::Fault) {
                Some(InstanceStatus::Fault)
            } else {
                None
            },
            final(self).id == old(self).id,
            final(self).local_name == old(self).local_name,
            final(self).responses == old(self).responses,
    {
        if self.status != Some(InstanceStatus::Fault) {
            self.status = None;
        }
    }

    /// Takes on a new instance, unless one is current.
    pub fn init(&mut self, instance_id: &str) -> (r: Result<(), &'static str>)
        ensures
            match old(self).status {
                Some(_) => r matches Err(m) && m@
                    == "already current instance, cannot INIT new instance"@ && *final(self)
                    == *old(self),
                None => r is Ok && final(self).status == Some(InstanceStatus::Init) && opt_str(
                    final(self).id,
                ) == Some(instance_id@) && final(self).local_name == old(self).local_name
                    && final(self).responses == old(self).responses,
            },
    {
        if self.status.is_some() {
            return Err("already current instance, cannot INIT new instance");
        }
        self.status = Some(InstanceStatus::Init);
        self.id = Some(owned(instance_id));
        Ok(())
    }

    /// Names the container `base_name` followed by the decimal `suffix`.
    pub fn set_local_name(&mut self, base_name: &str, suffix: u16) -> (name: String)
        ensures
            name@ == base_name@ + decimal(suffix as nat),
            opt_str(final(self).local_name) == Some(name@),
            final(self).status == old(self).status,
            final(self).id == old(self).id,
            final(self).responses == old(self).responses,
    {
        let digits = u64_to_string(suffix as u64);
        let name = concat2(base_name, digits.as_str());
        self.local_name = Some(name.clone());
        name
    }

    /// Names the container `base_name` followed by a random number.
    pub fn generate_local_name(&mut self, base_name: &str) -> (name: String)
        ensures
            exists|n: u16| name@ == base_name@ + decimal(n as nat),
            opt_str(final(self).local_name) == Some(name@),
            final(self).status == old(self).status,
            final(self).id == old(self).id,
            final(self).responses == old(self).responses,
    {
        let suffix = random_u16();
        self.set_local_name(base_name, suffix)
    }

    pub fn get_local_name(&self) -> (r: Result<String, &'static str>)
        ensures
            match self.local_name {
                Some(n) => r matches Ok(s) && s@ == n@,
                None => r matches Err(m) && m@ == "Local container name is undefined"@,
            },
    {
        match &self.local_name {
            Some(n) => Ok(n.clone()),
            None => Err("Local container name is undefined"),
        }
    }

    /// Whether the server may be asked for an SSH tunnel: only while the
    /// instance starts or is ready.
    pub fn sshtun_allowed(&self) -> (r: Result<(), String>)
        ensures
            match self.status {
                None => r matches Err(e) && e@ == "called when no active instance"@,
                Some(s) => if s == InstanceStatus::Init || s == InstanceStatus::Ready {
                    r is Ok
                } else {
                    r matches Err(e) && e@ == "called when instance status "@ + s.spec_name()
                },
            },
    {
        match self.status {
            None => Err(owned("called when no active instance")),
            Some(s) => {
                if s == InstanceStatus::Init || s == InstanceStatus::Ready {
                    Ok(())
                } else {
                    Err(concat2("called when instance status ", s.name()))
                }
            },
        }
    }

    /// Records a new message ID, with no response yet; false if the ID is in
    /// use already.
    pub fn register_message(&mut self, message_id: String) -> (b: bool)
        requires
            old(self).wf(),
        ensures
            final(self).wf(),
            b == !old(self).responses.view().dom().contains(message_id@),
            b ==> final(self).responses.view() == old(self).responses.view().insert(
                message_id@,
                None,
            ),
            !b ==> final(self).responses.view() == old(self).responses.view(),
            final(self).status == old(self).status,
            final(self).id == old(self).id,
            final(self).local_name == old(self).local_name,
    {
        if self.responses.contains_key(message_id.as_str()) {
            return false;
        }
        self.responses.insert(message_id, None);
        true
    }

    /// The response recorded for a message, if one has arrived.
    pub fn response(&self, message_id: &str) -> (r: Option<&Option<CWorkerCommand>>)
        requires
            self.wf(),
        ensures
            match r {
                Some(v) => self.responses.view().dom().contains(message_id@) && *v
                    == self.responses.view()[message_id@],
                None => !self.responses.view().dom().contains(message_id@),
            },
    {
        self.responses.get(message_id)
    }

    /// Records the server's response to a message that was sent and not yet
    /// answered.
    pub fn handle_response(&mut self, res: &CWorkerCommand) -> (r: Result<(), String>)
        requires
            old(self).wf(),
        ensures
            final(self).wf(),
            final(self).status == old(self).status,
            final(self).id == old(self).id,
            final(self).local_name == old(self).local_name,
            match response_step(old(self).responses.view(), *res) {
                Ok(m) => r is Ok && final(self).responses.view() == m,
                Err(msg) => r matches Err(e) && e@ == msg && final(self).responses
                    == old(self).responses,
            },
    {
        let message_id: String = match &res.message_id {
            Some(mi) => mi.clone(),
            None => {
                return Err(owned("missing message_id"));
            },
        };
        match self.responses.get(message_id.as_str()) {
            None => {
                return Err(concat2("unknown message ", message_id.as_str()));
            },
            Some(v) => {
                if v.is_some() {
                    return Err(concat2("already handled message ", message_id.as_str()));
                }
            },
        }
        self.responses.insert(message_id, Some(res.duplicate()));
        Ok(())
    }

    /// Starts terminating the current instance.  `Ok(true)`: the container
    /// must now be destroyed; `Ok(false)`: termination is under way already.
    pub fn terminate(&mut self) -> (r: Result<bool, String>)
        ensures
            final(self).id == old(self).id,
            final(self).local_name == old(self).local_name,
            final(self).responses == old(self).responses,
            match terminate_step(old(self).status) {
                (Ok(b), st) => r == Ok::<bool, String>(b) && final(self).status == st,
                (Err(msg), st) => r matches Err(e) && e@ == msg && final(self).status == st,
            },
    {
        match self.status {
            Some(s) => {
                if s == InstanceStatus::Terminating {
                    return Ok(false);
                }
                if s == InstanceStatus::Init || s == InstanceStatus::InitFail {
                    return Err(concat2("cannot terminate when status is ", s.name()));
                }
                self.status = Some(InstanceStatus::Terminating);
                Ok(true)
            },
            None => Err(owned("terminate() called when no active instance")),
        }
    }
}

/// The worker's answer to the server.
#[derive(Debug)]
pub enum Reply {
    Ack { message_id: Option<String>, status: Option<InstanceStatus> },
    Nack { message_id: Option<String> },
}

/// Work that the worker starts after answering.
#[derive(Debug, Clone, Copy, PartialEq, Eq, Structural)]
pub enum WorkerEffect {
    Nothing,
    /// Start the thread that launches the instance.
    Launch,
    /// Start the thread that destroys the instance.
    Destroy,
}

/// The worker's handling of one command: the reply, if any, and the work to
/// start.
#[derive(Debug)]
pub struct WorkerStep {
    pub reply: Option<Reply>,
    pub effect: WorkerEffect,
}

pub open spec fn ack(mi: Option<String>, status: Option<InstanceStatus>) -> Option<Reply> {
    Some(Reply::Ack { message_id: mi, status })
}

pub open spec fn nack(mi: Option<String>) -> Option<Reply> {
    Some(Reply::Nack { message_id: mi })
}

/// What the worker does on a command, given the status before it: the
/// reply, the work to start, and the status after it.
pub open spec fn worker_spec(status: Option<InstanceStatus>, req: CWorkerCommand) -> (
    Option<Reply>,
    WorkerEffect,
    Option<InstanceStatus>,
) {
    match req.command {
        CWorkerCommandType::InstanceLaunch => match status {
            Some(_) => (nack(req.message_id), WorkerEffect::Nothing, status),
            None => (ack(req.message_id, None), WorkerEffect::Launch, Some(InstanceStatus::Init)),
        },
        CWorkerCommandType::InstanceDestroy => match status {
            None => (nack(req.message_id), WorkerEffect::Nothing, status),
            Some(s) => if s == InstanceStatus::Terminating {
                (ack(req.message_id, None), WorkerEffect::Nothing, status)
            } else if s != InstanceStatus::Ready {
                (nack(req.message_id), WorkerEffect::Nothing, status)
            } else {
                (
                    ack(req.message_id, None),
                    WorkerEffect::Destroy,
                    Some(InstanceStatus::Terminating),
                )
            },
        },
        CWorkerCommandType::InstanceStatus => match status {
            Some(s) => (ack(req.message_id, Some(s)), WorkerEffect::Nothing, status),
            None => (nack(req.message_id), WorkerEffect::Nothing, status),
        },
        CWorkerCommandType::CreateSshTunDone => (None, WorkerEffect::Nothing, status),
    }
}

/// Handles one command from the server: changes the instance state, and
/// says what to answer and what work to start.
pub fn worker_step(state: &mut InstanceState, req: &CWorkerCommand) -> (step: WorkerStep)
    requires
        old(state).wf(),
    ensures
        final(state).wf(),
        worker_spec(old(state).status, *req) == (step.reply, step.effect, final(state).status),
        req.command == CWorkerCommandType::InstanceLaunch && old(state).status is None ==> opt_str(final(state).id) == Some(req.instance_id@),
        !(req.command == CWorkerCommandType::InstanceLaunch && old(state).status is None) ==> final(state).id == old(state).id,
        final(state).local_name == old(state).local_name,
        req.command == CWorkerCommandType::CreateSshTunDone && old(state).status is Some ==> match response_step(
            old(state).responses.view(),
            *req,
        ) {
            Ok(m) => final(state).responses.view() == m,
            Err(_) => final(state).responses == old(state).responses,
        },
        !(req.command == CWorkerCommandType::CreateSshTunDone && old(state).status is Some)
            ==> final(state).responses == old(state).responses,
{
    let mi = clone_opt(&req.message_id);
    match req.command {
        CWorkerCommandType::InstanceLaunch => {
            match state.init(req.instance_id.as_str()) {
                Ok(()) => WorkerStep {
                    reply: Some(Reply::Ack { message_id: mi, status: None }),
                    effect: WorkerEffect::Launch,
                },
                Err(_) => WorkerStep {
                    reply: Some(Reply::Nack { message_id: mi }),
                    effect: WorkerEffect::Nothing,
                },
            }
        },
        CWorkerCommandType::InstanceDestroy => {
            match state.status() {
                None => WorkerStep {
                    reply: Some(Reply::Nack { message_id: mi }),
                    effect: WorkerEffect::Nothing,
                },
                Some(status) => {
                    if status == InstanceStatus::Terminating {
                        WorkerStep {
                            reply: Some(Reply::Ack { message_id: mi, status: None }),
                            effect: WorkerEffect::Nothing,
                        }
                    } else if status != InstanceStatus::Ready {
                        WorkerStep {
                            reply: Some(Reply::Nack { message_id: mi }),
                            effect: WorkerEffect::Nothing,
                        }
                    } else {
                        let _ = state.terminate();
                        WorkerStep {
                            reply: Some(Reply::Ack { message_id: mi, status: None }),
                            effect: WorkerEffect::Destroy,
                        }
                    }
                },
            }
        },
        CWorkerCommandType::InstanceStatus => {
            match state.status() {
                Some(status) => WorkerStep {
                    reply: Some(Reply::Ack { message_id: mi, status: Some(status) }),
                    effect: WorkerEffect::Nothing,
                },
                None => WorkerStep {
                    reply: Some(Reply::Nack { message_id: mi }),
                    effect: WorkerEffect::Nothing,
                },
            }
        },
        CWorkerCommandType::CreateSshTunDone => {
            if state.has_instance() {
                let _ = state.handle_response(req);
            }
            WorkerStep { reply: None, effect: WorkerEffect::Nothing }
        },
    }
}

/// The status to report to the server, with the host key of the tunnel when
/// the instance is starting or ready; nothing when there is no instance.
pub fn status_report(state: &InstanceState, hostkey: Option<&str>) -> (r: Option<
    (InstanceStatus, Option<String>),
>)
    ensures
        match state.status {
            None => r is None,
            Some(s) => r matches Some((t, h)) && t == s && opt_str(h) == (if (s
                == InstanceStatus::Ready || s == InstanceStatus::Init) && hostkey is Some {
                Some(hostkey->0@)
            } else {
                None
            }),
        },
{
    match state.status {
        None => None,
        Some(s) => {
            if s != InstanceStatus::Ready && s != InstanceStatus::Init {
                Some((s, None))
            } else {
                match hostkey {
                    Some(h) => Some((s, Some(owned(h)))),
                    None => Some((s, None)),
                }
            }
        },
    }
}

/// A second instance cannot be started while one is current; the state is
/// left as it was.
pub proof fn law_cannot_init_when_busy(status: InstanceStatus, req: CWorkerCommand)
    requires
        req.command == CWorkerCommandType::InstanceLaunch,
    ensures
        worker_spec(Some(status), req) == (
            nack(req.message_id),
            WorkerEffect::Nothing,
            Some(status),
        ),
{
}

/// A response is accepted at most once for each message.
pub proof fn law_response_once(table: Map<Seq<char>, Option<CWorkerCommand>>, res: CWorkerCommand)
    requires
        response_step(table, res) is Ok,
    ensures
        response_step(response_step(table, res)->Ok_0, res) is Err,
{
}

/// A request to terminate while terminating changes nothing.
pub proof fn law_terminate_idempotent(status: Option<InstanceStatus>)
    requires
        terminate_step(status).0 is Ok,
    ensures
        terminate_step(terminate_step(status).1) == (
            Ok::<bool, Seq<char>>(false),
            Some(InstanceStatus::Terminating),
        ),
{
}

/// Only a ready instance is destroyed on request; afterwards it is
/// terminating, and a repeated request is acknowledged without new work.
pub proof fn law_destroy_only_when_ready(status: Option<InstanceStatus>, req: CWorkerCommand)
    requires
        req.command == CWorkerCommandType::InstanceDestroy,
    ensures
        worker_spec(status, req).1 == WorkerEffect::Destroy <==> status == Some(
            InstanceStatus::Ready,
        ),
        worker_spec(status, req).1 == WorkerEffect::Destroy ==> worker_spec(
            worker_spec(status, req).2,
            req,
        ) == (ack(req.message_id, None), WorkerEffect::Nothing, Some(InstanceStatus::Terminating)),
{
}

/// A status request changes nothing and starts no work.  While an instance
/// is current it is answered with an ACK that carries exactly its status;
/// a NACK comes only when there is no instance.
pub proof fn law_status_reports_current(status: Option<InstanceStatus>, req: CWorkerCommand)
    requires
        req.command == CWorkerCommandType::InstanceStatus,
    ensures
        worker_spec(status, req).1 == WorkerEffect::Nothing,
        worker_spec(status, req).2 == status,
        status is Some ==> worker_spec(status, req).0 == Some(
            Reply::Ack { message_id: req.message_id, status: status },
        ),
        (worker_spec(status, req).0 matches Some(Reply::Nack { .. })) <==> status is None,
{
}

/// A status request that follows the launch of a first instance is
/// answered with an ACK that carries `INIT`.
pub proof fn law_status_after_launch(launch: CWorkerCommand, ask: CWorkerCommand)
    requires
        launch.command == CWorkerCommandType::InstanceLaunch,
        ask.command == CWorkerCommandType::InstanceStatus,
    ensures
        worker_spec(worker_spec(None, launch).2, ask).0 == Some(
            Reply::Ack { message_id: ask.message_id, status: Some(InstanceStatus::Init) },
        ),
{
}

} // verus!
