//! The text of `hardshare config --list` in its default format: the local
//! configuration, and the registration details that the server sent.
use vstd::prelude::*;
use crate::api::str_member;
use crate::json::{JsonValue, member};
use crate::mgmt::{CProvider, Config, WDeployment, WDeploymentView, strs};
use crate::strmap::StrMap;
use crate::text::{join, join_strings, owned};

verus! {

/// `acc` followed by each item on a line of its own, after `prefix`.
pub open spec fn lines_onto(acc: Seq<char>, prefix: Seq<char>, items: Seq<Seq<char>>) -> Seq<char>
    decreases items.len(),
{
    if items.len() == 0 {
        acc
    } else {
        lines_onto(acc, prefix, items.drop_last()) + prefix + items.last() + "\n"@
    }
}

fn push_lines(s: &mut String, prefix: &str, items: &Vec<String>)
    ensures
        final(s)@ == lines_onto(old(s)@, prefix@, strs(items@)),
{
    let ghost start = s@;
    let mut i: usize = 0;
    while i < items.len()
        invariant
            i <= items@.len(),
            s@ == lines_onto(start, prefix@, strs(items@.subrange(0, i as int))),
        decreases items@.len() - i,
    {
        s.append(prefix);
        s.append(items[i].as_str());
        s.append("\n");
        i = i + 1;
        proof {
            let sub = strs(items@.subrange(0, i as int));
            assert(sub.drop_last() =~= strs(items@.subrange(0, i - 1)));
            assert(sub.last() == items@[i - 1]@);
        }
    }
    assert(items@.subrange(0, items@.len() as int) =~= items@);
}

/// Providers whose image is shown.
pub open spec fn shows_image(p: CProvider) -> bool {
    p == CProvider::Docker || p == CProvider::Podman || p == CProvider::Lxd
}

/// `acc` followed by the lines that describe one deployment of the local
/// configuration: ID, URL, owner, provider, container arguments, the image
/// (for providers that use one), and the programs run inside at start and
/// at termination, if any.
pub open spec fn wd_onto(acc: Seq<char>, w: WDeploymentView) -> Seq<char> {
    let a = acc + w.id + "\n\turl: "@ + w.url->0 + "\n\towner: "@ + w.owner + "\n\tcprovider: "@
        + w.cprovider.spec_name() + "\n\tcargs: "@ + join(w.cargs, ", "@) + "\n"@;
    let b = if shows_image(w.cprovider) {
        a + "\timg: "@ + match w.image {
            Some(i) => i,
            None => "(none)"@,
        } + "\n"@
    } else {
        a
    };
    let c = if w.init_inside.len() > 0 {
        lines_onto(b + "\tinit inside:\n"@, "\t\t"@, w.init_inside)
    } else {
        b
    };
    if w.terminate.len() > 0 {
        lines_onto(c + "\tterminate:\n"@, "\t\t"@, w.terminate)
    } else {
        c
    }
}

proof fn lemma_lines_onto_extends(acc: Seq<char>, prefix: Seq<char>, items: Seq<Seq<char>>)
    ensures
        lines_onto(acc, prefix, items).len() >= acc.len(),
        lines_onto(acc, prefix, items).subrange(0, acc.len() as int) == acc,
    decreases items.len(),
{
    if items.len() > 0 {
        let r = lines_onto(acc, prefix, items.drop_last());
        lemma_lines_onto_extends(acc, prefix, items.drop_last());
        let whole = r + prefix + items.last() + "\n"@;
        assert(whole.subrange(0, acc.len() as int) =~= r.subrange(0, acc.len() as int));
    }
}

/// The lines of a deployment's listing before the image line: ID, URL,
/// owner, provider and container arguments.
pub open spec fn wd_head(w: WDeploymentView) -> Seq<char> {
    w.id + "\n\turl: "@ + w.url->0 + "\n\towner: "@ + w.owner + "\n\tcprovider: "@
        + w.cprovider.spec_name() + "\n\tcargs: "@ + join(w.cargs, ", "@) + "\n"@
}

/// The listing of a Docker, Podman or LXD deployment goes on, right after
/// the line of container arguments, with an `img:` line that gives its
/// image, or `(none)`; that of a rootless Docker or proxy deployment has no
/// such line (with nothing to run inside or at the end, the listing stops
/// there).
pub proof fn law_listing_shows_image(acc: Seq<char>, w: WDeploymentView)
    ensures
        w.cprovider == CProvider::Docker || w.cprovider == CProvider::Podman || w.cprovider
            == CProvider::Lxd ==> {
            let line = acc + wd_head(w) + "\timg: "@ + match w.image {
                Some(i) => i,
                None => "(none)"@,
            } + "\n"@;
            wd_onto(acc, w).len() >= line.len() && wd_onto(acc, w).subrange(0, line.len() as int)
                == line
        },
        (w.cprovider == CProvider::DockerRootless || w.cprovider == CProvider::Proxy)
            && w.init_inside.len() == 0 && w.terminate.len() == 0 ==> wd_onto(acc, w) == acc + wd_head(
            w,
        ),
{
    let a = acc + wd_head(w);
    assert(a =~= acc + w.id + "\n\turl: "@ + w.url->0 + "\n\towner: "@ + w.owner + "\n\tcprovider: "@
        + w.cprovider.spec_name() + "\n\tcargs: "@ + join(w.cargs, ", "@) + "\n"@);
    let b = if shows_image(w.cprovider) {
        a + "\timg: "@ + match w.image {
            Some(i) => i,
            None => "(none)"@,
        } + "\n"@
    } else {
        a
    };
    let c = if w.init_inside.len() > 0 {
        lines_onto(b + "\tinit inside:\n"@, "\t\t"@, w.init_inside)
    } else {
        b
    };
    if w.init_inside.len() > 0 {
        lemma_lines_onto_extends(b + "\tinit inside:\n"@, "\t\t"@, w.init_inside);
        assert(c.subrange(0, b.len() as int) =~= (b + "\tinit inside:\n"@).subrange(0, b.len() as int));
    } else {
        assert(c.subrange(0, b.len() as int) =~= b);
    }
    let d = wd_onto(acc, w);
    if w.terminate.len() > 0 {
        lemma_lines_onto_extends(c + "\tterminate:\n"@, "\t\t"@, w.terminate);
        assert(d.subrange(0, c.len() as int) =~= (c + "\tterminate:\n"@).subrange(0, c.len() as int));
        assert(d.subrange(0, b.len() as int) =~= c.subrange(0, b.len() as int));
    } else {
        assert(d.subrange(0, b.len() as int) =~= c.subrange(0, b.len() as int));
    }
}

fn push_wd_text(s: &mut String, w: &WDeployment)
    requires
        w.url is Some,
    ensures
        final(s)@ == wd_onto(old(s)@, w@),
{
    s.append(w.id.as_str());
    s.append("\n\turl: ");
    match &w.url {
        Some(u) => s.append(u.as_str()),
        None => {},
    }
    s.append("\n\towner: ");
    s.append(w.owner.as_str());
    s.append("\n\tcprovider: ");
    s.append(w.cprovider.name());
    s.append("\n\tcargs: ");
    let cargs = join_strings(&w.cargs, ", ");
    assert(w.cargs@.map_values(|x: String| x@) =~= strs(w.cargs@));
    s.append(cargs.as_str());
    s.append("\n");
    let shows = match w.cprovider {
        CProvider::Docker | CProvider::Podman | CProvider::Lxd => true,
        _ => false,
    };
    if shows {
        s.append("\timg: ");
        match &w.image {
            Some(i) => s.append(i.as_str()),
            None => s.append("(none)"),
        }
        s.append("\n");
    }
    if w.init_inside.len() > 0 {
        s.append("\tinit inside:\n");
        push_lines(s, "\t\t", &w.init_inside);
    }
    if w.terminate.len() > 0 {
        s.append("\tterminate:\n");
        push_lines(s, "\t\t", &w.terminate);
    }
}

/// `acc` followed by the lines of the deployments of the local
/// configuration.
pub open spec fn wds_onto(acc: Seq<char>, ws: Seq<WDeployment>) -> Seq<char>
    decreases ws.len(),
{
    if ws.len() == 0 {
        acc
    } else {
        wd_onto(wds_onto(acc, ws.drop_last()), ws.last()@)
    }
}

/// `acc` followed by the token files of the organizations other than `()`,
/// each organization on a line of its own.
pub open spec fn orgs_onto(acc: Seq<char>, es: Seq<(String, Vec<String>)>) -> Seq<char>
    decreases es.len(),
{
    if es.len() == 0 {
        acc
    } else {
        let a = orgs_onto(acc, es.drop_last());
        let e = es.last();
        if e.0@ == "()"@ {
            a
        } else {
            lines_onto(a + "\t"@ + e.0@ + ":\n"@, "\t\t"@, strs(e.1@))
        }
    }
}

/// `acc` followed by the token files that could not be used, each with its
/// reason.
pub open spec fn errors_onto(acc: Seq<char>, es: Seq<(String, String)>) -> Seq<char>
    decreases es.len(),
{
    if es.len() == 0 {
        acc
    } else {
        errors_onto(acc, es.drop_last()) + "\t "@ + es.last().1@ + ": "@ + es.last().0@ + "\n"@
    }
}

/// The part of the listing that shows the local configuration: its
/// deployments, the default organization, the token files by
/// organization, and the token files with errors when they were collected.
pub open spec fn local_text(c: Config) -> Seq<char> {
    let tokens = c.api_tokens.view();
    let a = "workspace deployments defined in local configuration:\n"@;
    let b = if c.wdeployments@.len() == 0 {
        a + "\t(none)\n"@
    } else {
        wds_onto(a, c.wdeployments@)
    };
    let d = b + "\ndefault org: "@ + match c.default_org {
        Some(o) => o@,
        None => "(none)"@,
    } + "\n"@ + "\nfound API tokens:\n"@;
    let e = if tokens.len() == 0 {
        d + "\t(none)\n"@
    } else {
        orgs_onto(
            if tokens.dom().contains("()"@) {
                lines_onto(d, "\t"@, strs(tokens["()"@]@))
            } else {
                d
            },
            c.api_tokens.entries(),
        )
    };
    match c.err_api_tokens {
        None => e,
        Some(m) => errors_onto(
            if m.view().len() > 0 {
                e + "found possible API tokens with errors:\n"@
            } else {
                e
            },
            m.entries(),
        ),
    }
}

fn push_orgs(s: &mut String, tokens: &StrMap<Vec<String>>)
    requires
        tokens.wf(),
    ensures
        final(s)@ == orgs_onto(old(s)@, tokens.entries()),
{
    let ghost start = s@;
    let n = tokens.len();
    let mut i: usize = 0;
    while i < n
        invariant
            tokens.wf(),
            n == tokens.entries().len(),
            i <= n,
            s@ == orgs_onto(start, tokens.entries().subrange(0, i as int)),
        decreases n - i,
    {
        let (org, paths) = tokens.entry_at(i);
        let ghost pre = tokens.entries().subrange(0, i + 1);
        assert(pre.drop_last() =~= tokens.entries().subrange(0, i as int));
        assert(pre.last() == tokens.entries()[i as int]);
        if !crate::text::str_eq(org.as_str(), "()") {
            s.append("\t");
            s.append(org.as_str());
            s.append(":\n");
            push_lines(s, "\t\t", paths);
        }
        i = i + 1;
    }
    assert(tokens.entries().subrange(0, n as int) =~= tokens.entries());
}

fn push_errors(s: &mut String, errs: &StrMap<String>)
    requires
        errs.wf(),
    ensures
        final(s)@ == errors_onto(old(s)@, errs.entries()),
{
    let ghost start = s@;
    let n = errs.len();
    let mut i: usize = 0;
    while i < n
        invariant
            errs.wf(),
            n == errs.entries().len(),
            i <= n,
            s@ == errors_onto(start, errs.entries().subrange(0, i as int)),
        decreases n - i,
    {
        let (path, err) = errs.entry_at(i);
        let ghost pre = errs.entries().subrange(0, i + 1);
        assert(pre.drop_last() =~= errs.entries().subrange(0, i as int));
        assert(pre.last() == errs.entries()[i as int]);
        s.append("\t ");
        s.append(err.as_str());
        s.append(": ");
        s.append(path.as_str());
        s.append("\n");
        i = i + 1;
    }
    assert(errs.entries().subrange(0, n as int) =~= errs.entries());
}

/// Every deployment of the configuration has a URL (`append_urls` gives
/// them one).
pub open spec fn all_have_urls(c: Config) -> bool {
    forall|i: int| 0 <= i < c.wdeployments@.len() ==> (#[trigger] c.wdeployments@[i]).url is Some
}

fn local_listing(c: &Config) -> (s: String)
    requires
        c.wf(),
        all_have_urls(*c),
    ensures
        s@ == local_text(*c),
{
    let mut s = owned("workspace deployments defined in local configuration:\n");
    if c.wdeployments.len() == 0 {
        s.append("\t(none)\n");
    } else {
        let ghost start = s@;
        let mut i: usize = 0;
        while i < c.wdeployments.len()
            invariant
                i <= c.wdeployments@.len(),
                all_have_urls(*c),
                s@ == wds_onto(start, c.wdeployments@.subrange(0, i as int)),
            decreases c.wdeployments@.len() - i,
        {
            proof {
                let pre = c.wdeployments@.subrange(0, i + 1);
                assert(pre.drop_last() =~= c.wdeployments@.subrange(0, i as int));
                assert(pre.last() == c.wdeployments@[i as int]);
            }
            push_wd_text(&mut s, &c.wdeployments[i]);
            i = i + 1;
        }
        assert(c.wdeployments@.subrange(0, i as int) =~= c.wdeployments@);
    }
    s.append("\ndefault org: ");
    match &c.default_org {
        Some(o) => s.append(o.as_str()),
        None => s.append("(none)"),
    }
    s.append("\n");
    s.append("\nfound API tokens:\n");
    if c.api_tokens.len() == 0 {
        s.append("\t(none)\n");
    } else {
        match c.api_tokens.get("()") {
            Some(paths) => {
                push_lines(&mut s, "\t", paths);
            },
            None => {},
        }
        push_orgs(&mut s, &c.api_tokens);
    }
    match &c.err_api_tokens {
        None => {},
        Some(m) => {
            if m.len() > 0 {
                s.append("found possible API tokens with errors:\n");
            }
            push_errors(&mut s, m);
        },
    }
    s
}

/// `value[k]` is present and not null.
pub open spec fn given(v: JsonValue, k: Seq<char>) -> bool {
    member(v, k) matches Some(x) && !(x is Null)
}

/// What the listing needs of each deployment that the server sent: an ID,
/// a creation date, a lock-out flag, and, where given, a description, an
/// origin and a dissolution date as strings.
pub open spec fn remote_wd_ok(w: JsonValue) -> bool {
    &&& str_member(w, "id"@) is Some
    &&& str_member(w, "date_created"@) is Some
    &&& (given(w, "desc"@) ==> str_member(w, "desc"@) is Some)
    &&& (given(w, "origin"@) ==> str_member(w, "origin"@) is Some)
    &&& (given(w, "dissolved"@) ==> str_member(w, "dissolved"@) is Some)
    &&& member(w, "lockout"@) matches Some(JsonValue::Bool(_))
}

/// The deployments that the server sent, as the listing needs them.
pub open spec fn remote_ok(r: JsonValue) -> bool {
    member(r, "wdeployments"@) matches Some(JsonValue::Array(a)) && forall|i: int|
        0 <= i < a@.len() ==> remote_wd_ok(#[trigger] a@[i])
}

/// `acc` followed by the lines that describe a deployment that the server
/// sent: ID, creation date, description, origin, dissolution date and
/// lock-out, each where given.
pub open spec fn remote_wd_onto(acc: Seq<char>, w: JsonValue) -> Seq<char> {
    let a = acc + str_member(w, "id"@)->0 + "\n"@ + "\tcreated: "@ + str_member(w, "date_created"@)->0
        + "\n"@;
    let b = if given(w, "desc"@) {
        a + "\tdesc: "@ + str_member(w, "desc"@)->0 + "\n"@
    } else {
        a
    };
    let c = b + "\torigin (address) of registration: "@ + (if given(w, "origin"@) {
        str_member(w, "origin"@)->0
    } else {
        "(unknown)"@
    }) + "\n"@;
    let d = if given(w, "dissolved"@) {
        c + "\tdissolved: "@ + str_member(w, "dissolved"@)->0 + "\n"@
    } else {
        c
    };
    if member(w, "lockout"@) == Some(JsonValue::Bool(true)) {
        d + "\tlock-out: true\n"@
    } else {
        d
    }
}

/// `acc` followed by the deployments that the server sent and the listing
/// shows: all of them, or those of the local configuration.
pub open spec fn remote_wds_onto(
    acc: Seq<char>,
    ws: Seq<JsonValue>,
    local_ids: Seq<Seq<char>>,
    show_all: bool,
) -> Seq<char>
    decreases ws.len(),
{
    if ws.len() == 0 {
        acc
    } else {
        let a = remote_wds_onto(acc, ws.drop_last(), local_ids, show_all);
        let w = ws.last();
        if show_all || local_ids.contains(str_member(w, "id"@)->0) {
            remote_wd_onto(a, w)
        } else {
            a
        }
    }
}

pub open spec fn local_ids(c: Config) -> Seq<Seq<char>> {
    c.wdeployments@.map_values(|w: WDeployment| w.id@)
}

/// `acc` followed by the part of the listing that shows what the server
/// sent.
pub open spec fn remote_onto(acc: Seq<char>, r: JsonValue, ids: Seq<Seq<char>>, show_all: bool) -> Seq<
    char,
> {
    match member(r, "wdeployments"@) {
        Some(JsonValue::Array(a)) => if a@.len() == 0 {
            acc + "\nno registered workspace deployments with this user account\n"@
        } else {
            remote_wds_onto(
                acc + if show_all {
                    "\nregistration details for all workspace deployments owned by this user:\n"@
                } else {
                    "\nregistration details for workspace deployments in local config:\n"@
                },
                a@,
                ids,
                show_all,
            )
        },
        _ => acc,
    }
}

fn field_str<'a>(w: &'a JsonValue, k: &str) -> (r: &'a str)
    requires
        str_member(*w, k@) is Some,
    ensures
        r@ == str_member(*w, k@)->0,
{
    match w.get(k) {
        Some(JsonValue::Str(s)) => s.as_str(),
        _ => "",
    }
}

fn is_given(w: &JsonValue, k: &str) -> (b: bool)
    ensures
        b == given(*w, k@),
{
    match w.get(k) {
        Some(JsonValue::Null) => false,
        Some(_) => true,
        None => false,
    }
}

fn push_remote_wd(s: &mut String, w: &JsonValue)
    requires
        remote_wd_ok(*w),
    ensures
        final(s)@ == remote_wd_onto(old(s)@, *w),
{
    s.append(field_str(w, "id"));
    s.append("\n");
    s.append("\tcreated: ");
    s.append(field_str(w, "date_created"));
    s.append("\n");
    if is_given(w, "desc") {
        s.append("\tdesc: ");
        s.append(field_str(w, "desc"));
        s.append("\n");
    }
    s.append("\torigin (address) of registration: ");
    if is_given(w, "origin") {
        s.append(field_str(w, "origin"));
    } else {
        s.append("(unknown)");
    }
    s.append("\n");
    if is_given(w, "dissolved") {
        s.append("\tdissolved: ");
        s.append(field_str(w, "dissolved"));
        s.append("\n");
    }
    let locked = match w.get("lockout") {
        Some(JsonValue::Bool(b)) => *b,
        _ => false,
    };
    if locked {
        s.append("\tlock-out: true\n");
    }
}

fn contains_id(ids: &Vec<String>, id: &str) -> (b: bool)
    ensures
        b == strs(ids@).contains(id@),
{
    let mut i: usize = 0;
    while i < ids.len()
        invariant
            i <= ids@.len(),
            forall|j: int| 0 <= j < i ==> ids@[j]@ != id@,
        decreases ids@.len() - i,
    {
        if crate::text::str_eq(ids[i].as_str(), id) {
            assert(strs(ids@)[i as int] == id@);
            return true;
        }
        i = i + 1;
    }
    proof {
        if strs(ids@).contains(id@) {
            let k = choose|k: int| 0 <= k < ids@.len() && strs(ids@)[k] == id@;
            assert(ids@[k]@ == id@);
        }
    }
    false
}

fn push_remote(s: &mut String, r: &JsonValue, ids: &Vec<String>, show_all: bool)
    requires
        remote_ok(*r),
    ensures
        final(s)@ == remote_onto(old(s)@, *r, strs(ids@), show_all),
{
    let ws = match r.get("wdeployments") {
        Some(JsonValue::Array(a)) => a,
        _ => {
            return;
        },
    };
    if ws.len() == 0 {
        s.append("\nno registered workspace deployments with this user account\n");
        return;
    }
    if show_all {
        s.append("\nregistration details for all workspace deployments owned by this user:\n");
    } else {
        s.append("\nregistration details for workspace deployments in local config:\n");
    }
    let ghost start = s@;
    let mut i: usize = 0;
    while i < ws.len()
        invariant
            i <= ws@.len(),
            forall|j: int| 0 <= j < ws@.len() ==> remote_wd_ok(#[trigger] ws@[j]),
            s@ == remote_wds_onto(start, ws@.subrange(0, i as int), strs(ids@), show_all),
        decreases ws@.len() - i,
    {
        let w = &ws[i];
        assert(remote_wd_ok(ws@[i as int]));
        let ghost pre = ws@.subrange(0, i + 1);
        assert(pre.drop_last() =~= ws@.subrange(0, i as int));
        assert(pre.last() == ws@[i as int]);
        if show_all || contains_id(ids, field_str(w, "id")) {
            push_remote_wd(s, w);
        }
        i = i + 1;
    }
    assert(ws@.subrange(0, i as int) =~= ws@);
}

/// The listing of `hardshare config --list` in the default format: the
/// local configuration, then, when the server was asked, its registration
/// details of the deployments (all of them with `show_all_remote`, else
/// those of the local configuration).
pub fn config_text(local: &Config, remote: Option<&JsonValue>, show_all_remote: bool) -> (s: String)
    requires
        local.wf(),
        all_have_urls(*local),
        remote matches Some(r) ==> remote_ok(*r),
    ensures
        s@ == match remote {
            Some(r) => remote_onto(local_text(*local), *r, local_ids(*local), show_all_remote),
            None => local_text(*local),
        },
{
    let mut s = local_listing(local);
    match remote {
        Some(r) => {
            let mut ids: Vec<String> = Vec::new();
            let mut i: usize = 0;
            while i < local.wdeployments.len()
                invariant
                    i <= local.wdeployments@.len(),
                    local_ids(*local).len() == local.wdeployments@.len(),
                    strs(ids@) == local_ids(*local).subrange(0, i as int),
                decreases local.wdeployments@.len() - i,
            {
                let ghost before = ids@;
                assert(local_ids(*local)[i as int] == local.wdeployments@[i as int].id@);
                ids.push(local.wdeployments[i].id.clone());
                assert(strs(ids@) =~= strs(before).push(local.wdeployments@[i as int].id@));
                i = i + 1;
                assert(strs(ids@) =~= local_ids(*local).subrange(0, i as int));
            }
            assert(local_ids(*local).subrange(0, i as int) =~= local_ids(*local));
            push_remote(&mut s, r, &ids, show_all_remote);
        },
        None => {},
    }
    s
}

} // verus!
