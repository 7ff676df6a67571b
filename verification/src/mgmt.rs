//! Local configuration: workspace deployments, their container providers,
//! and the lookup of deployments by ID prefix.
use vstd::prelude::*;
use crate::json::JsonValue;
use crate::strmap::StrMap;
use crate::text::{owned, concat2, str_eq, has_prefix, join, starts_with, chars_of, join_strings};
use crate::tokens::TokenInfo;

verus! {

/// Error of the configuration commands: a message.
#[derive(Debug, Clone)]
pub struct MgmtError {
    pub msg: String,
}

/// An `Err` carrying `msg`.
pub fn error<T>(msg: &str) -> (r: Result<T, MgmtError>)
    ensures
        r matches Err(e) && e.msg@ == msg@,
{
    Err(MgmtError { msg: owned(msg) })
}

/// Container provider of a workspace deployment.
#[derive(Debug, Clone, Copy, PartialEq, Eq, Structural)]
pub enum CProvider {
    Docker,
    DockerRootless,
    Lxd,
    Podman,
    Proxy,
}

/// The provider that a configuration name denotes.
pub open spec fn provider_named(s: Seq<char>) -> Option<CProvider> {
    if s == "docker"@ {
        Some(CProvider::Docker)
    } else if s == "docker-rootless"@ {
        Some(CProvider::DockerRootless)
    } else if s == "lxd"@ {
        Some(CProvider::Lxd)
    } else if s == "podman"@ {
        Some(CProvider::Podman)
    } else if s == "proxy"@ {
        Some(CProvider::Proxy)
    } else {
        None
    }
}

impl CProvider {
    pub open spec fn spec_name(&self) -> Seq<char> {
        match self {
            CProvider::Docker => "docker"@,
            CProvider::DockerRootless => "docker-rootless"@,
            CProvider::Lxd => "lxd"@,
            CProvider::Podman => "podman"@,
            CProvider::Proxy => "proxy"@,
        }
    }

    /// The name of the provider in configuration files (its `Display`).
    pub fn name(&self) -> (s: &'static str)
        ensures
            s@ == self.spec_name(),
    {
        match self {
            CProvider::Docker => "docker",
            CProvider::DockerRootless => "docker-rootless",
            CProvider::Lxd => "lxd",
            CProvider::Podman => "podman",
            CProvider::Proxy => "proxy",
        }
    }

    /// The provider named `value` (`TryFrom<&str>`).
    pub fn from_name(value: &str) -> (r: Result<CProvider, &'static str>)
        ensures
            match provider_named(value@) {
                Some(p) => r == Ok::<CProvider, &'static str>(p),
                None => r matches Err(m) && m@
                    == "error: cprovider must be one of the following: docker, docker-rootless, lxd, podman, proxy"@,
            },
    {
        if str_eq(value, "docker") {
            Ok(CProvider::Docker)
        } else if str_eq(value, "docker-rootless") {
            Ok(CProvider::DockerRootless)
        } else if str_eq(value, "lxd") {
            Ok(CProvider::Lxd)
        } else if str_eq(value, "podman") {
            Ok(CProvider::Podman)
        } else if str_eq(value, "proxy") {
            Ok(CProvider::Proxy)
        } else {
            Err(
                "error: cprovider must be one of the following: docker, docker-rootless, lxd, podman, proxy",
            )
        }
    }

    /// The program that runs containers of this provider.
    pub fn get_execname(&self) -> (r: Result<String, &'static str>)
        ensures
            match self {
                CProvider::DockerRootless => r matches Ok(s) && s@ == "docker"@,
                CProvider::Proxy => r matches Err(m) && m@
                    == "Container provider should have executable"@,
                _ => r matches Ok(s) && s@ == self.spec_name(),
            },
    {
        if *self == CProvider::DockerRootless {
            Ok(owned("docker"))
        } else if *self == CProvider::Proxy {
            Err("Container provider should have executable")
        } else {
            Ok(owned(self.name()))
        }
    }
}

/// Reading the name of a provider gives the provider back.
pub proof fn law_provider_name_roundtrip(p: CProvider)
    ensures
        provider_named(p.spec_name()) == Some(p),
{
    reveal_strlit("docker");
    reveal_strlit("docker-rootless");
    reveal_strlit("lxd");
    reveal_strlit("podman");
    reveal_strlit("proxy");
    assert("docker"@[0] != "lxd"@[0]);
    assert("docker"@[0] != "podman"@[0]);
    assert("docker"@[0] != "proxy"@[0]);
    assert("docker-rootless"@.len() != "docker"@.len());
    assert("podman"@[1] != "proxy"@[1]);
}

/// The views of a list of strings.
pub open spec fn strs(v: Seq<String>) -> Seq<Seq<char>> {
    v.map_values(|s: String| s@)
}

pub open spec fn opt_str(o: Option<String>) -> Option<Seq<char>> {
    match o {
        Some(s) => Some(s@),
        None => None,
    }
}

/// A workspace deployment declared in the local configuration.
#[derive(Debug)]
pub struct WDeployment {
    pub id: String,
    pub owner: String,
    pub cprovider: CProvider,
    pub cargs: Vec<String>,
    pub container_name: String,
    pub init_inside: Vec<String>,
    pub terminate: Vec<String>,
    pub monitor: Option<String>,
    pub image: Option<String>,
    pub url: Option<String>,
    pub ssh_key: Option<String>,
}

/// A copy of a list of strings.
pub fn clone_strings(v: &Vec<String>) -> (r: Vec<String>)
    ensures
        r@ == v@,
{
    let mut r: Vec<String> = Vec::new();
    let mut i: usize = 0;
    while i < v.len()
        invariant
            i <= v@.len(),
            r@ == v@.subrange(0, i as int),
        decreases v@.len() - i,
    {
        r.push(v[i].clone());
        i = i + 1;
        assert(r@ =~= v@.subrange(0, i as int));
    }
    assert(v@.subrange(0, v@.len() as int) =~= v@);
    r
}

pub fn clone_opt(o: &Option<String>) -> (r: Option<String>)
    ensures
        r == *o,
{
    match o {
        Some(s) => Some(s.clone()),
        None => None,
    }
}

/// A workspace deployment as plain values.
pub struct WDeploymentView {
    pub id: Seq<char>,
    pub owner: Seq<char>,
    pub cprovider: CProvider,
    pub cargs: Seq<Seq<char>>,
    pub container_name: Seq<char>,
    pub init_inside: Seq<Seq<char>>,
    pub terminate: Seq<Seq<char>>,
    pub monitor: Option<Seq<char>>,
    pub image: Option<Seq<char>>,
    pub url: Option<Seq<char>>,
    pub ssh_key: Option<Seq<char>>,
}

impl View for WDeployment {
    type V = WDeploymentView;

    open spec fn view(&self) -> WDeploymentView {
        WDeploymentView {
            id: self.id@,
            owner: self.owner@,
            cprovider: self.cprovider,
            cargs: strs(self.cargs@),
            container_name: self.container_name@,
            init_inside: strs(self.init_inside@),
            terminate: strs(self.terminate@),
            monitor: opt_str(self.monitor),
            image: opt_str(self.image),
            url: opt_str(self.url),
            ssh_key: opt_str(self.ssh_key),
        }
    }
}

impl WDeployment {
    /// A field-by-field copy.
    pub fn duplicate(&self) -> (r: WDeployment)
        ensures
            r@ == self@,
    {
        WDeployment {
            id: self.id.clone(),
            owner: self.owner.clone(),
            cprovider: self.cprovider,
            cargs: clone_strings(&self.cargs),
            container_name: self.container_name.clone(),
            init_inside: clone_strings(&self.init_inside),
            terminate: clone_strings(&self.terminate),
            monitor: clone_opt(&self.monitor),
            image: clone_opt(&self.image),
            url: clone_opt(&self.url),
            ssh_key: clone_opt(&self.ssh_key),
        }
    }
}

/// The text of a JSON string.
pub open spec fn str_of(v: JsonValue) -> Option<Seq<char>> {
    match v {
        JsonValue::Str(s) => Some(s@),
        _ => None,
    }
}

/// The texts of a JSON array of strings.
pub open spec fn str_list_of(v: JsonValue) -> Option<Seq<Seq<char>>> {
    match v {
        JsonValue::Array(a) => if forall|i: int| 0 <= i < a@.len() ==> (#[trigger] a@[i]) is Str {
            Some(Seq::new(a@.len(), |i: int| str_of(a@[i])->0))
        } else {
            None
        },
        _ => None,
    }
}

/// A field that must be a string array when present; absent means empty.
pub open spec fn list_field(h: Map<Seq<char>, JsonValue>, k: Seq<char>) -> Option<Seq<Seq<char>>> {
    if h.dom().contains(k) {
        str_list_of(h[k])
    } else {
        Some(seq![])
    }
}

/// A field that must be a string when present.
pub open spec fn opt_field(h: Map<Seq<char>, JsonValue>, k: Seq<char>) -> Option<Option<Seq<char>>> {
    if h.dom().contains(k) {
        match str_of(h[k]) {
            Some(s) => Some(Some(s)),
            None => None,
        }
    } else {
        Some(None)
    }
}

/// A field that must be present and a string.
pub open spec fn req_field(h: Map<Seq<char>, JsonValue>, k: Seq<char>) -> Option<Seq<char>> {
    if h.dom().contains(k) {
        str_of(h[k])
    } else {
        None
    }
}

/// The provider field: `docker` when absent.
pub open spec fn provider_field(h: Map<Seq<char>, JsonValue>) -> Option<CProvider> {
    if h.dom().contains("cprovider"@) {
        match str_of(h["cprovider"@]) {
            Some(s) => provider_named(s),
            None => None,
        }
    } else {
        Some(CProvider::Docker)
    }
}

/// The deployment that a configuration entry describes, with its defaults;
/// nothing when a field has the wrong type or a required one is missing.
pub open spec fn wdeployment_of(h: Map<Seq<char>, JsonValue>) -> Option<WDeploymentView> {
    let cprovider = provider_field(h);
    let cargs = list_field(h, "cargs"@);
    let container_name = if h.dom().contains("container_name"@) {
        str_of(h["container_name"@])
    } else {
        Some("rrc"@)
    };
    let init_inside = list_field(h, "init_inside"@);
    let terminate = list_field(h, "terminate"@);
    let monitor = opt_field(h, "monitor"@);
    let image = if h.dom().contains("image"@) {
        opt_field(h, "image"@)
    } else if cprovider is Some && cprovider != Some(CProvider::Proxy) {
        Some(Some("rerobots/hs-generic"@))
    } else {
        Some(None)
    };
    let url = opt_field(h, "url"@);
    let id = req_field(h, "id"@);
    let owner = req_field(h, "owner"@);
    if cprovider is Some && cargs is Some && container_name is Some && init_inside is Some
        && terminate is Some && monitor is Some && image is Some && url is Some && id is Some
        && owner is Some {
        Some(
            WDeploymentView {
                id: id->0,
                owner: owner->0,
                cprovider: cprovider->0,
                cargs: cargs->0,
                container_name: container_name->0,
                init_inside: init_inside->0,
                terminate: terminate->0,
                monitor: monitor->0,
                image: image->0,
                url: url->0,
                ssh_key: None,
            },
        )
    } else {
        None
    }
}

/// The texts of a JSON array of strings.
fn string_list(v: &JsonValue) -> (r: Vec<String>)
    requires
        str_list_of(*v) is Some,
    ensures
        strs(r@) == str_list_of(*v)->0,
{
    match v {
        JsonValue::Array(a) => {
            let mut r: Vec<String> = Vec::new();
            let mut i: usize = 0;
            while i < a.len()
                invariant
                    i <= a@.len(),
                    forall|j: int| 0 <= j < a@.len() ==> (#[trigger] a@[j]) is Str,
                    r@.len() == i,
                    forall|j: int| 0 <= j < i ==> #[trigger] r@[j]@ == str_of(a@[j])->0,
                decreases a@.len() - i,
            {
                match &a[i] {
                    JsonValue::Str(s) => {
                        r.push(s.clone());
                    },
                    _ => {
                        assert(a@[i as int] is Str);
                    },
                }
                i = i + 1;
            }
            assert(strs(r@) =~= str_list_of(*v)->0);
            r
        },
        _ => Vec::new(),
    }
}

fn string_value(v: &JsonValue) -> (r: String)
    requires
        str_of(*v) is Some,
    ensures
        r@ == str_of(*v)->0,
{
    match v {
        JsonValue::Str(s) => s.clone(),
        _ => String::new(),
    }
}

fn list_entry(h: &StrMap<JsonValue>, key: &str) -> (r: Vec<String>)
    requires
        h.wf(),
        list_field(h.view(), key@) is Some,
    ensures
        strs(r@) == list_field(h.view(), key@)->0,
{
    match h.get(key) {
        Some(v) => string_list(v),
        None => {
            let r: Vec<String> = Vec::new();
            assert(strs(r@) =~= seq![]);
            r
        },
    }
}

fn opt_entry(h: &StrMap<JsonValue>, key: &str) -> (r: Option<String>)
    requires
        h.wf(),
        opt_field(h.view(), key@) is Some,
    ensures
        opt_str(r) == opt_field(h.view(), key@)->0,
{
    match h.get(key) {
        Some(v) => Some(string_value(v)),
        None => None,
    }
}

impl WDeployment {
    /// The deployment that a configuration entry describes, with defaults for
    /// the fields it leaves out.
    pub fn from_json(h: &StrMap<JsonValue>) -> (wd: WDeployment)
        requires
            h.wf(),
            wdeployment_of(h.view()) is Some,
        ensures
            wd@ == wdeployment_of(h.view())->0,
    {
        let cprovider = match h.get("cprovider") {
            Some(v) => match CProvider::from_name(string_value(v).as_str()) {
                Ok(p) => p,
                Err(_) => CProvider::Docker,
            },
            None => CProvider::Docker,
        };
        let cargs = list_entry(h, "cargs");
        let container_name = match h.get("container_name") {
            Some(v) => string_value(v),
            None => owned("rrc"),
        };
        let init_inside = list_entry(h, "init_inside");
        let terminate = list_entry(h, "terminate");
        let monitor = opt_entry(h, "monitor");
        let image = if h.contains_key("image") {
            opt_entry(h, "image")
        } else if cprovider != CProvider::Proxy {
            Some(owned("rerobots/hs-generic"))
        } else {
            None
        };
        let url = opt_entry(h, "url");
        let id = match h.get("id") {
            Some(v) => string_value(v),
            None => String::new(),
        };
        let owner = match h.get("owner") {
            Some(v) => string_value(v),
            None => String::new(),
        };
        WDeployment {
            id,
            owner,
            cprovider,
            cargs,
            container_name,
            init_inside,
            terminate,
            monitor,
            image,
            url,
            ssh_key: None,
        }
    }

    /// A deployment with only its ID and owner given; every other field takes
    /// its default.
    pub fn new_min(id: &str, owner: &str) -> (wd: WDeployment)
        ensures
            wd@ == min_view(id@, owner@),
            wd@.id == id@,
            wd@.owner == owner@,
            wd@.cprovider == CProvider::Docker,
            wd@.cargs == Seq::<Seq<char>>::empty(),
            wd@.container_name == "rrc"@,
            wd@.init_inside == Seq::<Seq<char>>::empty(),
            wd@.terminate == Seq::<Seq<char>>::empty(),
            wd@.monitor is None,
            wd@.image == Some("rerobots/hs-generic"@),
            wd@.url is None,
            wd@.ssh_key is None,
    {
        let mut h: StrMap<JsonValue> = StrMap::new();
        h.insert(owned("id"), JsonValue::Str(owned(id)));
        h.insert(owned("owner"), JsonValue::Str(owned(owner)));
        proof {
            reveal_strlit("id");
            reveal_strlit("owner");
            reveal_strlit("cprovider");
            reveal_strlit("cargs");
            reveal_strlit("container_name");
            reveal_strlit("init_inside");
            reveal_strlit("terminate");
            reveal_strlit("monitor");
            reveal_strlit("image");
            reveal_strlit("url");
            let m = h.view();
            assert(m.dom() =~= set!["id"@, "owner"@]);
            assert("cprovider"@.len() != "id"@.len() && "cprovider"@.len() != "owner"@.len());
            assert(!m.dom().contains("cprovider"@));
            assert("cargs"@.len() != "id"@.len() && "cargs"@[0] != "owner"@[0]);
            assert(!m.dom().contains("cargs"@));
            assert(!m.dom().contains("container_name"@));
            assert(!m.dom().contains("init_inside"@));
            assert(!m.dom().contains("terminate"@));
            assert(!m.dom().contains("monitor"@));
            assert(!m.dom().contains("image"@));
            assert(!m.dom().contains("url"@));
        }
        Self::from_json(&h)
    }
}

/// The deployment with ID `id` and owner `owner` whose other fields take
/// their defaults.
pub open spec fn min_view(id: Seq<char>, owner: Seq<char>) -> WDeploymentView {
    WDeploymentView {
        id,
        owner,
        cprovider: CProvider::Docker,
        cargs: seq![],
        container_name: "rrc"@,
        init_inside: seq![],
        terminate: seq![],
        monitor: None,
        image: Some("rerobots/hs-generic"@),
        url: None,
        ssh_key: None,
    }
}

/// The local configuration.
#[derive(Debug)]
pub struct Config {
    pub version: u16,
    pub wdeployments: Vec<WDeployment>,
    pub ssh_key: String,
    /// Organization name, or `()` for none, to the paths of its token files.
    pub api_tokens: StrMap<Vec<String>>,
    /// Claims of the tokens, in the order of `api_tokens`.
    pub api_tokens_data: StrMap<Vec<TokenInfo>>,
    /// Token files that could not be used, with the reason.
    pub err_api_tokens: Option<StrMap<String>>,
    pub default_org: Option<String>,
    pub known_orgs: Vec<String>,
}

impl Config {
    /// The maps of the configuration are well formed.
    pub open spec fn wf(&self) -> bool {
        &&& self.api_tokens.wf()
        &&& self.api_tokens_data.wf()
        &&& (self.err_api_tokens matches Some(m) ==> m.wf())
    }

    /// An empty configuration.
    pub fn new() -> (c: Config)
        ensures
            c.wf(),
            c.version == 0,
            c.wdeployments@.len() == 0,
            c.ssh_key@.len() == 0,
            c.api_tokens.view().len() == 0,
            c.api_tokens_data.view().len() == 0,
            c.err_api_tokens is None,
            c.default_org is None,
            c.known_orgs@.len() == 0,
    {
        Config {
            version: 0,
            wdeployments: Vec::new(),
            ssh_key: String::new(),
            api_tokens: StrMap::new(),
            api_tokens_data: StrMap::new(),
            err_api_tokens: None,
            default_org: None,
            known_orgs: Vec::new(),
        }
    }
}

/// IDs of the deployments whose ID starts with `p`, in order.
pub open spec fn matching_ids(wds: Seq<WDeployment>, p: Seq<char>) -> Seq<Seq<char>>
    decreases wds.len(),
{
    if wds.len() == 0 {
        seq![]
    } else {
        let r = matching_ids(wds.drop_last(), p);
        if has_prefix(wds.last().id@, p) {
            r.push(wds.last().id@)
        } else {
            r
        }
    }
}

/// Deployment `i` is the only one whose ID starts with `p`.
pub open spec fn unique_match(wds: Seq<WDeployment>, p: Seq<char>, i: int) -> bool {
    &&& 0 <= i < wds.len()
    &&& has_prefix(wds[i].id@, p)
    &&& forall|k: int| 0 <= k < wds.len() && k != i ==> !has_prefix(wds[k].id@, p)
}

/// The deployment that an optional ID prefix designates, or why there is none.
pub open spec fn find_spec(wds: Seq<WDeployment>, p: Option<Seq<char>>) -> Result<int, Seq<char>> {
    match p {
        Some(p) => {
            let ms = matching_ids(wds, p);
            if ms.len() > 1 {
                Err("given prefix matches more than 1 workspace deployment: "@ + join(ms, ", "@))
            } else if ms.len() == 0 {
                Err("given prefix does not match any workspace deployments"@)
            } else {
                Ok(choose|i: int| unique_match(wds, p, i))
            }
        },
        None => if wds.len() == 1 {
            Ok(0)
        } else if wds.len() == 0 {
            Err("no workspace deployment in local configuration."@)
        } else {
            Err("ambiguous command: more than 1 workspace deployment defined."@)
        },
    }
}

pub open spec fn opt_prefix(p: Option<&str>) -> Option<Seq<char>> {
    match p {
        Some(s) => Some(s@),
        None => None,
    }
}

/// Index of the deployment that an ID prefix designates: the only one whose
/// ID starts with it; with no prefix, the only deployment.
pub fn find_id_prefix(config: &Config, id_prefix: Option<&str>) -> (r: Result<usize, MgmtError>)
    ensures
        match find_spec(config.wdeployments@, opt_prefix(id_prefix)) {
            Ok(i) => r == Ok::<usize, MgmtError>(i as usize),
            Err(m) => r matches Err(e) && e.msg@ == m,
        },
        r matches Ok(i) ==> i < config.wdeployments@.len(),
        r matches Ok(i) ==> (id_prefix matches Some(p) ==> unique_match(
            config.wdeployments@,
            p@,
            i as int,
        )),
{
    let wds = &config.wdeployments;
    if let Some(id_prefix) = id_prefix {
        let p = chars_of(id_prefix);
        let mut cand_idx: Vec<usize> = Vec::new();
        let mut cand_ids: Vec<String> = Vec::new();
        let mut j: usize = 0;
        while j < wds.len()
            invariant
                j <= wds@.len(),
                p@ == id_prefix@,
                cand_idx@.len() == cand_ids@.len(),
                strs(cand_ids@) == matching_ids(wds@.subrange(0, j as int), p@),
                forall|t: int|
                    0 <= t < cand_idx@.len() ==> #[trigger] cand_idx@[t] < j && cand_ids@[t]@
                        == wds@[cand_idx@[t] as int].id@ && has_prefix(
                        wds@[cand_idx@[t] as int].id@,
                        p@,
                    ),
                forall|k: int|
                    0 <= k < j && has_prefix(#[trigger] wds@[k].id@, p@) ==> exists|t: int|
                        0 <= t < cand_idx@.len() && cand_idx@[t] == k,
            decreases wds@.len() - j,
        {
            let id_chars = chars_of(wds[j].id.as_str());
            let ghost pre = wds@.subrange(0, j + 1);
            assert(pre.drop_last() =~= wds@.subrange(0, j as int));
            let ghost old_idx = cand_idx@;
            if starts_with(id_chars.as_slice(), p.as_slice()) {
                cand_idx.push(j);
                cand_ids.push(wds[j].id.clone());
                proof {
                    assert(strs(cand_ids@) =~= matching_ids(pre, p@));
                    assert(cand_idx@[cand_idx@.len() - 1] == j);
                    assert forall|k: int|
                        0 <= k < j + 1 && has_prefix(#[trigger] wds@[k].id@, p@) implies exists|t: int|
                        0 <= t < cand_idx@.len() && cand_idx@[t] == k by {
                        if k == j {
                            assert(cand_idx@[cand_idx@.len() - 1] == k);
                        } else {
                            let t = choose|t: int| 0 <= t < old_idx.len() && old_idx[t] == k;
                            assert(cand_idx@[t] == k);
                        }
                    }
                }
            }
            j = j + 1;
        }
        assert(wds@.subrange(0, wds@.len() as int) =~= wds@);
        if cand_idx.len() > 1 {
            let listing = join_strings(&cand_ids, ", ");
            let msg = concat2("given prefix matches more than 1 workspace deployment: ", listing.as_str());
            Err(MgmtError { msg })
        } else if cand_idx.len() == 0 {
            error("given prefix does not match any workspace deployments")
        } else {
            let i = cand_idx[0];
            proof {
                assert(unique_match(wds@, p@, i as int)) by {
                    assert forall|k: int| 0 <= k < wds@.len() && k != i implies !has_prefix(
                        wds@[k].id@,
                        p@,
                    ) by {
                        if has_prefix(wds@[k].id@, p@) {
                            let t = choose|t: int| 0 <= t < cand_idx@.len() && cand_idx@[t] == k;
                            assert(t == 0);
                        }
                    }
                }
                let c = choose|c: int| unique_match(wds@, p@, c);
                assert(c == i);
            }
            Ok(i)
        }
    } else if wds.len() == 1 {
        Ok(0)
    } else if wds.len() == 0 {
        error("no workspace deployment in local configuration.")
    } else {
        error("ambiguous command: more than 1 workspace deployment defined.")
    }
}

proof fn lemma_no_match(wds: Seq<WDeployment>, p: Seq<char>)
    requires
        forall|k: int| 0 <= k < wds.len() ==> !has_prefix(#[trigger] wds[k].id@, p),
    ensures
        matching_ids(wds, p).len() == 0,
    decreases wds.len(),
{
    if wds.len() > 0 {
        let t = wds.drop_last();
        assert forall|k: int| 0 <= k < t.len() implies !has_prefix(#[trigger] t[k].id@, p) by {
            assert(t[k] == wds[k]);
        }
        lemma_no_match(t, p);
        assert(!has_prefix(wds[wds.len() - 1].id@, p));
    }
}

proof fn lemma_one_match(wds: Seq<WDeployment>, p: Seq<char>, i: int)
    requires
        unique_match(wds, p, i),
    ensures
        matching_ids(wds, p).len() == 1,
    decreases wds.len(),
{
    let t = wds.drop_last();
    let last = wds.len() - 1;
    if i == last {
        assert forall|k: int| 0 <= k < t.len() implies !has_prefix(#[trigger] t[k].id@, p) by {
            assert(t[k] == wds[k]);
        }
        lemma_no_match(t, p);
    } else {
        assert(t[i] == wds[i]);
        assert forall|k: int| 0 <= k < t.len() && k != i implies !has_prefix(
            #[trigger] t[k].id@,
            p,
        ) by {
            assert(t[k] == wds[k]);
        }
        lemma_one_match(t, p, i);
        assert(!has_prefix(wds[last].id@, p));
    }
}

/// A prefix that exactly one deployment's ID starts with designates that
/// deployment, whatever the others are.
pub proof fn law_unique_prefix_designates(wds: Seq<WDeployment>, p: Seq<char>, i: int)
    requires
        unique_match(wds, p, i),
    ensures
        find_spec(wds, Some(p)) == Ok::<int, Seq<char>>(i),
{
    lemma_one_match(wds, p, i);
    let c = choose|c: int| unique_match(wds, p, c);
    assert(unique_match(wds, p, c));
    if c != i {
        assert(!has_prefix(wds[c].id@, p));
    }
}

/// IDs that a list of prefixes designates, or the error of the first prefix
/// that designates none.
pub open spec fn expand_list(wds: Seq<WDeployment>, ps: Seq<Seq<char>>) -> Result<
    Seq<Seq<char>>,
    Seq<char>,
>
    decreases ps.len(),
{
    if ps.len() == 0 {
        Ok(seq![])
    } else {
        match expand_list(wds, ps.drop_last()) {
            Err(m) => Err(m),
            Ok(ids) => match find_spec(wds, Some(ps.last())) {
                Ok(i) => Ok(ids.push(wds[i].id@)),
                Err(m) => Err(m),
            },
        }
    }
}

/// IDs designated by prefixes; with no prefix, the ID of the only deployment.
pub open spec fn expand_spec(wds: Seq<WDeployment>, ps: Seq<Seq<char>>) -> Result<
    Seq<Seq<char>>,
    Seq<char>,
> {
    if ps.len() == 0 {
        match find_spec(wds, None) {
            Ok(i) => Ok(seq![wds[i].id@]),
            Err(m) => Err(m),
        }
    } else {
        expand_list(wds, ps)
    }
}

proof fn lemma_expand_err(wds: Seq<WDeployment>, ps: Seq<Seq<char>>, k: int)
    requires
        0 <= k <= ps.len(),
        expand_list(wds, ps.subrange(0, k)) is Err,
    ensures
        expand_list(wds, ps) == expand_list(wds, ps.subrange(0, k)),
    decreases ps.len(),
{
    if k == ps.len() {
        assert(ps.subrange(0, k) =~= ps);
    } else {
        let t = ps.drop_last();
        assert(t.subrange(0, k) =~= ps.subrange(0, k));
        lemma_expand_err(wds, t, k);
    }
}

/// Every prefix designates a deployment when looked up alone.
pub open spec fn all_found(wds: Seq<WDeployment>, ps: Seq<Seq<char>>) -> bool {
    forall|i: int| 0 <= i < ps.len() ==> #[trigger] find_spec(wds, Some(ps[i])) is Ok
}

proof fn lemma_expand_list(wds: Seq<WDeployment>, ps: Seq<Seq<char>>)
    ensures
        expand_list(wds, ps) is Ok <==> all_found(wds, ps),
        expand_list(wds, ps) is Ok ==> expand_list(wds, ps)->Ok_0.len() == ps.len(),
        expand_list(wds, ps) is Ok ==> forall|i: int|
            0 <= i < ps.len() ==> expand_list(wds, ps)->Ok_0[i] == wds[#[trigger] find_spec(
                wds,
                Some(ps[i]),
            )->Ok_0].id@,
    decreases ps.len(),
{
    if ps.len() > 0 {
        let t = ps.drop_last();
        lemma_expand_list(wds, t);
        let last = ps.len() - 1;
        assert forall|i: int| 0 <= i < t.len() implies t[i] == ps[i] by {}
        if all_found(wds, ps) {
            assert forall|i: int| 0 <= i < t.len() implies #[trigger] find_spec(wds, Some(t[i])) is Ok by {
                assert(find_spec(wds, Some(ps[i])) is Ok);
            }
            assert(find_spec(wds, Some(ps[last])) is Ok);
            assert(ps.last() == ps[last]);
        } else {
            let k = choose|k: int| 0 <= k < ps.len() && !(#[trigger] find_spec(wds, Some(ps[k])) is Ok);
            if k < last {
                assert(t[k] == ps[k]);
                assert(!all_found(wds, t));
            } else {
                assert(ps.last() == ps[k]);
            }
        }
        if expand_list(wds, ps) is Ok {
            let v = expand_list(wds, ps)->Ok_0;
            let w = expand_list(wds, t)->Ok_0;
            assert forall|i: int| 0 <= i < ps.len() implies v[i] == wds[#[trigger] find_spec(
                wds,
                Some(ps[i]),
            )->Ok_0].id@ by {
                if i < last {
                    assert(v[i] == w[i]);
                    assert(t[i] == ps[i]);
                    assert(w[i] == wds[find_spec(wds, Some(t[i]))->Ok_0].id@);
                } else {
                    assert(ps.last() == ps[i]);
                }
            }
        }
    }
}

proof fn lemma_single_match(wds: Seq<WDeployment>, p: Seq<char>)
    requires
        matching_ids(wds, p).len() == 1,
    ensures
        exists|i: int| unique_match(wds, p, i),
    decreases wds.len(),
{
    let t = wds.drop_last();
    let last = wds.len() - 1;
    if has_prefix(wds[last].id@, p) {
        assert(matching_ids(t, p).len() == 0);
        assert forall|k: int| 0 <= k < wds.len() && k != last implies !has_prefix(wds[k].id@, p) by {
            assert(t[k] == wds[k]);
            if has_prefix(wds[k].id@, p) {
                lemma_match_counted(t, p, k);
            }
        }
        assert(unique_match(wds, p, last));
    } else {
        lemma_single_match(t, p);
        let i = choose|i: int| unique_match(t, p, i);
        assert(t[i] == wds[i]);
        assert forall|k: int| 0 <= k < wds.len() && k != i implies !has_prefix(wds[k].id@, p) by {
            if k < last {
                assert(t[k] == wds[k]);
            }
        }
        assert(unique_match(wds, p, i));
    }
}

proof fn lemma_match_counted(wds: Seq<WDeployment>, p: Seq<char>, k: int)
    requires
        0 <= k < wds.len(),
        has_prefix(wds[k].id@, p),
    ensures
        matching_ids(wds, p).len() > 0,
    decreases wds.len(),
{
    let t = wds.drop_last();
    if k < wds.len() - 1 {
        assert(t[k] == wds[k]);
        lemma_match_counted(t, p, k);
    }
}

/// Expanding several prefixes succeeds exactly when each prefix alone
/// designates a deployment; the IDs then come in the order of the prefixes,
/// each the ID of the deployment its prefix designates, which starts with
/// that prefix.  With no prefix, the only deployment's ID is given.
pub proof fn law_expand_is_lookup_of_each(wds: Seq<WDeployment>, ps: Seq<Seq<char>>)
    ensures
        ps.len() == 0 ==> expand_spec(wds, ps) == match find_spec(wds, None) {
            Ok(i) => Ok::<Seq<Seq<char>>, Seq<char>>(seq![wds[i].id@]),
            Err(m) => Err(m),
        },
        ps.len() > 0 ==> (expand_spec(wds, ps) is Ok <==> all_found(wds, ps)),
        ps.len() > 0 && expand_spec(wds, ps) is Ok ==> expand_spec(wds, ps)->Ok_0.len() == ps.len(),
        ps.len() > 0 && expand_spec(wds, ps) is Ok ==> forall|i: int|
            0 <= i < ps.len() ==> expand_spec(wds, ps)->Ok_0[i] == wds[#[trigger] find_spec(
                wds,
                Some(ps[i]),
            )->Ok_0].id@ && has_prefix(expand_spec(wds, ps)->Ok_0[i], ps[i]),
{
    if ps.len() > 0 {
        lemma_expand_list(wds, ps);
        if expand_spec(wds, ps) is Ok {
            assert forall|i: int| 0 <= i < ps.len() implies has_prefix(
                expand_spec(wds, ps)->Ok_0[i],
                ps[i],
            ) by {
                assert(find_spec(wds, Some(ps[i])) is Ok);
                lemma_single_match(wds, ps[i]);
                let c = choose|c: int| unique_match(wds, ps[i], c);
                assert(unique_match(wds, ps[i], c));
            }
        }
    }
}

/// The full IDs of the deployments that prefixes designate.
pub fn expand_id_prefixes(config: &Config, id_prefixes: &[&str]) -> (r: Result<Vec<String>, MgmtError>)
    ensures
        match expand_spec(
            config.wdeployments@,
            id_prefixes@.map_values(|p: &str| p@),
        ) {
            Ok(ids) => r matches Ok(v) && strs(v@) == ids,
            Err(m) => r matches Err(e) && e.msg@ == m,
        },
{
    let ghost ps = id_prefixes@.map_values(|p: &str| p@);
    if id_prefixes.len() == 0 {
        let index = match find_id_prefix(config, None) {
            Ok(i) => i,
            Err(e) => {
                return Err(e);
            },
        };
        let mut v: Vec<String> = Vec::new();
        v.push(config.wdeployments[index].id.clone());
        assert(strs(v@) =~= seq![config.wdeployments@[index as int].id@]);
        return Ok(v);
    }
    let mut expansion: Vec<String> = Vec::new();
    let mut i: usize = 0;
    assert(strs(expansion@) =~= seq![]);
    assert(ps.subrange(0, 0) =~= seq![]);
    while i < id_prefixes.len()
        invariant
            i <= id_prefixes@.len(),
            ps == id_prefixes@.map_values(|p: &str| p@),
            expand_list(config.wdeployments@, ps.subrange(0, i as int)) == Ok::<
                Seq<Seq<char>>,
                Seq<char>,
            >(strs(expansion@)),
        decreases id_prefixes@.len() - i,
    {
        let ghost pre = ps.subrange(0, i + 1);
        assert(pre.drop_last() =~= ps.subrange(0, i as int));
        assert(pre.last() == id_prefixes@[i as int]@);
        let ghost old_exp = expansion@;
        let index = match find_id_prefix(config, Some(id_prefixes[i])) {
            Ok(k) => k,
            Err(e) => {
                proof {
                    lemma_expand_err(config.wdeployments@, ps, i + 1);
                }
                return Err(e);
            },
        };
        proof {
            let c = choose|c: int| unique_match(config.wdeployments@, pre.last(), c);
            assert(unique_match(config.wdeployments@, pre.last(), index as int));
            assert(c == index);
        }
        expansion.push(config.wdeployments[index].id.clone());
        assert(strs(expansion@) =~= strs(old_exp).push(config.wdeployments@[index as int].id@));
        assert(find_spec(config.wdeployments@, Some(pre.last())) == Ok::<int, Seq<char>>(
            index as int,
        ));
        i = i + 1;
    }
    assert(ps.subrange(0, ps.len() as int) =~= ps);
    Ok(expansion)
}

/// The page of a deployment on the rerobots site.
pub open spec fn workspace_url(id: Seq<char>) -> Seq<char> {
    "https://rerobots.net/workspace/"@ + id
}

/// A deployment with a URL: its own, or its workspace page.
pub open spec fn with_url(a: WDeploymentView) -> WDeploymentView {
    WDeploymentView {
        url: match a.url {
            Some(u) => Some(u),
            None => Some(workspace_url(a.id)),
        },
        ..a
    }
}

/// Giving URLs a second time changes nothing, and every deployment has a
/// URL afterwards.
pub proof fn law_append_urls_idempotent(a: WDeploymentView)
    ensures
        with_url(with_url(a)) == with_url(a),
        with_url(a).url is Some,
{
}

/// Gives each deployment without a URL the URL of its page.
pub fn append_urls(config: &mut Config)
    ensures
        final(config).wdeployments@.len() == old(config).wdeployments@.len(),
        forall|i: int|
            0 <= i < final(config).wdeployments@.len() ==> {
                let a = old(config).wdeployments@[i]@;
                let b = (#[trigger] final(config).wdeployments@[i])@;
                b == with_url(a)
            },
        final(config).version == old(config).version,
        final(config).ssh_key == old(config).ssh_key,
        final(config).api_tokens == old(config).api_tokens,
        final(config).api_tokens_data == old(config).api_tokens_data,
        final(config).err_api_tokens == old(config).err_api_tokens,
        final(config).default_org == old(config).default_org,
        final(config).known_orgs == old(config).known_orgs,
{
    let mut wds: Vec<WDeployment> = Vec::new();
    std::mem::swap(&mut wds, &mut config.wdeployments);
    let ghost olds = wds@;
    let mut out: Vec<WDeployment> = Vec::new();
    let mut i: usize = 0;
    while i < wds.len()
        invariant
            i <= wds@.len(),
            wds@ == olds,
            out@.len() == i,
            forall|j: int|
                0 <= j < i ==> {
                    let a = olds[j]@;
                    let b = (#[trigger] out@[j])@;
                    b == with_url(a)
                },
        decreases wds@.len() - i,
    {
        let mut wd = wds[i].duplicate();
        if wd.url.is_none() {
            wd.url = Some(concat2("https://rerobots.net/workspace/", wd.id.as_str()));
        }
        out.push(wd);
        i = i + 1;
    }
    config.wdeployments = out;
}

/// What `Path::with_extension("pub")` gives for a path: the path of the
/// public key that goes with a secret key.
pub uninterp spec fn with_pub_extension(path: Seq<char>) -> Seq<char>;

/// Wraps `std::path::Path::with_extension` with the extension `pub`, which
/// replaces the extension of the last component of the path, or adds one.
/// Claimed: the result is a function of the path, named
/// `with_pub_extension`.  The text of the result is taken lossily, but the
/// path of a text with a new ASCII extension is text.
#[verifier::external_body]
fn pub_extension(path: &str) -> (r: String)
    ensures
        r@ == with_pub_extension(path@),
{
    std::path::Path::new(path).with_extension("pub").to_string_lossy().to_string()
}

/// The path of the public key that goes with the secret key at `path`.
pub fn public_key_path(path: &str) -> (r: String)
    ensures
        r@ == with_pub_extension(path@),
{
    pub_extension(path)
}

/// A key file named for `hardshare config --add-ssh-path`, as found on
/// disk: its canonical path (as text, with `utf8` telling whether the path
/// was text), whether it exists, and whether the public key file
/// `public_key_path(path)` exists.
pub struct SshKeyCandidate {
    pub path: String,
    pub utf8: bool,
    pub exists: bool,
    pub public_exists: bool,
}

/// Takes the key pair at `key.path` as the SSH key of the configuration:
/// the secret key must exist, its public key must be another file, which
/// must exist, and the path must be text.
pub fn add_ssh_path(config: &mut Config, key: &SshKeyCandidate) -> (r: Result<(), MgmtError>)
    ensures
        !key.exists ==> (r matches Err(e) && e.msg@ == "file does not exist"@),
        key.exists && with_pub_extension(key.path@) == key.path@ ==> (r matches Err(e) && e.msg@
            == "public key file cannot be same as secret key file"@),
        key.exists && with_pub_extension(key.path@) != key.path@ && !key.public_exists ==> (r matches Err(
            e,
        ) && e.msg@ == "public key file does not exist"@),
        key.exists && with_pub_extension(key.path@) != key.path@ && key.public_exists && !key.utf8
            ==> (r matches Err(e) && e.msg@ == "path not given in UTF-8"@),
        r is Ok <==> (key.exists && with_pub_extension(key.path@) != key.path@ && key.public_exists
            && key.utf8),
        r is Ok ==> final(config).ssh_key@ == key.path@,
        r is Err ==> final(config).ssh_key == old(config).ssh_key,
        final(config).wdeployments == old(config).wdeployments,
        final(config).api_tokens == old(config).api_tokens,
        final(config).api_tokens_data == old(config).api_tokens_data,
        final(config).err_api_tokens == old(config).err_api_tokens,
        final(config).default_org == old(config).default_org,
        final(config).known_orgs == old(config).known_orgs,
        final(config).version == old(config).version,
{
    if !key.exists {
        return error("file does not exist");
    }
    let public = public_key_path(key.path.as_str());
    if str_eq(public.as_str(), key.path.as_str()) {
        return error("public key file cannot be same as secret key file");
    }
    if !key.public_exists {
        return error("public key file does not exist");
    }
    if !key.utf8 {
        return error("path not given in UTF-8");
    }
    config.ssh_key = key.path.clone();
    Ok(())
}

} // verus!
