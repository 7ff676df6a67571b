//! API tokens: reading their claims with the rerobots client library, and
//! grouping the saved tokens by organization.
use vstd::prelude::*;
use rerobots::client::TokenClaims;
use jwt::{Claims, Header, Token};
use serde_json::Value;
use crate::mgmt::{MgmtError, strs};
use crate::strmap::StrMap;
use crate::text::{chars_of, string_of, trim, trimmed, owned};

verus! {

/// The claims of an API token that the configuration commands read.
#[derive(Debug)]
pub struct TokenInfo {
    /// The user name.
    pub subject: String,
    /// Organization scope, if any.
    pub organization: Option<String>,
    /// Time (seconds since the Unix epoch) after which the token is not valid.
    pub expiration: Option<u64>,
}

impl Clone for TokenInfo {
    fn clone(&self) -> (r: Self)
        ensures
            r == *self,
    {
        TokenInfo {
            subject: self.subject.clone(),
            organization: match &self.organization {
                Some(o) => Some(o.clone()),
                None => None,
            },
            expiration: self.expiration,
        }
    }
}

/// What `TokenClaims::new` gives for a token text: subject, organization and
/// expiration, or the error message.
pub uninterp spec fn token_claims(raw: Seq<char>) -> Result<
    (Seq<char>, Option<Seq<char>>, Option<u64>),
    Seq<char>,
>;

pub open spec fn claims_view(t: TokenInfo) -> (Seq<char>, Option<Seq<char>>, Option<u64>) {
    (
        t.subject@,
        match t.organization {
            Some(o) => Some(o@),
            None => None,
        },
        t.expiration,
    )
}

/// How the `org` claim of a token reads when its claims are decoded
/// without checking the signature.
#[derive(Debug, Clone, Copy, PartialEq, Eq, Structural)]
pub enum OrgClaim {
    /// The header or the claims could not be decoded.
    Unreadable,
    /// The claims have no `org` entry.
    Absent,
    /// The `org` entry is a string.
    Text,
    /// The `org` entry is some other JSON value.
    Other,
}

/// What `jwt::Token::parse_unverified` reads of the `org` claim of a token
/// text.
pub uninterp spec fn unverified_org(raw: Seq<char>) -> OrgClaim;

/// Wraps `jwt::Token::<Header, Claims, _>::parse_unverified`, which splits
/// the token in three, decodes header and claims from base64 JSON and does
/// not look at the signature.  Claimed: the kind of the `org` entry among the
/// private claims is a function of the token text alone, named
/// `unverified_org`.
#[verifier::external_body]
fn org_claim(raw: &str) -> (r: OrgClaim)
    ensures
        r == unverified_org(raw@),
{
    match Token::<Header, Claims, _>::parse_unverified(raw) {
        Ok(t) => match t.claims().private.get("org") {
            None => OrgClaim::Absent,
            Some(Value::String(_)) => OrgClaim::Text,
            Some(Value::Null) | Some(Value::Bool(_)) | Some(Value::Number(_)) => OrgClaim::Other,
            Some(Value::Array(_)) | Some(Value::Object(_)) => OrgClaim::Other,
        },
        Err(_) => OrgClaim::Unreadable,
    }
}

/// Wraps `rerobots::client::TokenClaims::new`, which checks the token's
/// signature against the issuer's public key and reads its claims.  Claimed:
/// the result is a function of the token text alone, named `token_claims`.
/// `TokenClaims::new` panics when the signature is valid and the `org` claim
/// is not a string.  It verifies through `jwt`, which decodes the claims
/// with `parse_unverified` before checking the signature, so such a token is
/// one whose `org` claim `unverified_org` reads as `Other`: those texts are
/// left out.
#[verifier::external_body]
pub(crate) fn parse_token(raw: &str) -> (r: Result<TokenInfo, String>)
    requires
        unverified_org(raw@) != OrgClaim::Other,
    ensures
        match token_claims(raw@) {
            Ok(c) => r matches Ok(t) && claims_view(t) == c,
            Err(m) => r matches Err(e) && e@ == m,
        },
        r matches Err(e) ==> e@ == "not a valid signature"@ || e@ == "unknown error"@ || e@
            == "Token has subject claim"@,
{
    match TokenClaims::new(raw) {
        Ok(c) => Ok(
            TokenInfo { subject: c.subject, organization: c.organization, expiration: c.expiration },
        ),
        Err(e) => Err(e.to_string()),
    }
}

/// Wraps `TokenClaims::is_expired`, which compares the expiration with the
/// current time.  Claimed: a token without expiration is never expired.
/// Nothing else is stated: the answer depends on the clock.
#[verifier::external_body]
pub(crate) fn token_expired(t: &TokenInfo) -> (b: bool)
    ensures
        t.expiration is None ==> !b,
{
    let claims = TokenClaims {
        subject: t.subject.clone(),
        organization: t.organization.clone(),
        expiration: t.expiration,
    };
    claims.is_expired()
}

/// The text of a token file as the token: without surrounding whitespace.
pub fn token_text(content: &str) -> (t: String)
    ensures
        t@ == trimmed(content@),
{
    let v = chars_of(content);
    let w = trim(v.as_slice());
    string_of(w.as_slice())
}

/// A saved token file as read: its path, the claims of its text or the
/// error met while reading them, and whether the token had expired.
#[derive(Debug)]
pub struct TokenFile {
    pub path: String,
    pub claims: Result<TokenInfo, String>,
    pub expired: bool,
}

/// The claims of a token text: refused when its `org` claim is not a string,
/// else as `TokenClaims::new` reads them.
pub open spec fn text_claims(text: Seq<char>) -> Result<
    (Seq<char>, Option<Seq<char>>, Option<u64>),
    Seq<char>,
> {
    if unverified_org(text) == OrgClaim::Other {
        Err("org claim is not a string"@)
    } else {
        token_claims(text)
    }
}

/// The claims of a token file's content, read from the trimmed text.
pub open spec fn file_claims(content: Seq<char>) -> Result<
    (Seq<char>, Option<Seq<char>>, Option<u64>),
    Seq<char>,
> {
    text_claims(trimmed(content))
}

/// The claims of a token text; a text whose `org` claim is not a string is
/// refused before `TokenClaims::new` sees it, whatever its signature:
/// `TokenClaims::new` panics on such a text when the signature is valid,
/// and the signature cannot be checked apart from it (the key is private to
/// the rerobots crate).
pub fn token_claims_of(text: &str) -> (r: Result<TokenInfo, String>)
    ensures
        claims_result_view(r) == text_claims(text@),
{
    if org_claim(text) == OrgClaim::Other {
        return Err(owned("org claim is not a string"));
    }
    parse_token(text)
}

pub open spec fn claims_result_view(r: Result<TokenInfo, String>) -> Result<
    (Seq<char>, Option<Seq<char>>, Option<u64>),
    Seq<char>,
> {
    match r {
        Ok(t) => Ok(claims_view(t)),
        Err(e) => Err(e@),
    }
}

/// Reads the claims of the token saved at `path` with text `content`, and
/// whether it has expired (by the clock, so only a token without
/// expiration is known to be unexpired).
pub fn read_token_file(path: String, content: &str) -> (f: TokenFile)
    ensures
        f.path@ == path@,
        claims_result_view(f.claims) == file_claims(content@),
        match f.claims {
            Ok(t) => t.expiration is None ==> !f.expired,
            Err(_) => !f.expired,
        },
{
    let text = token_text(content);
    let claims = token_claims_of(text.as_str());
    let expired = match &claims {
        Ok(t) => token_expired(t),
        Err(_) => false,
    };
    TokenFile { path, claims, expired }
}

/// The organization under which a token is filed; `()` stands for none.
pub open spec fn org_key(t: TokenInfo) -> Seq<char> {
    match t.organization {
        Some(o) => o@,
        None => "()"@,
    }
}

fn org_key_of(t: &TokenInfo) -> (k: String)
    ensures
        k@ == org_key(*t),
{
    match &t.organization {
        Some(o) => o.clone(),
        None => owned("()"),
    }
}

/// Whether a token file is listed among the usable tokens: its claims were
/// read, and it is not an expired token while errors are collected.
pub open spec fn listed(f: TokenFile, collect_errors: bool) -> bool {
    f.claims is Ok && !(f.expired && collect_errors)
}

/// The paths of the listed tokens, by organization, in the order read.
pub open spec fn grouped_paths(fs: Seq<TokenFile>, collect_errors: bool) -> Map<
    Seq<char>,
    Seq<Seq<char>>,
>
    decreases fs.len(),
{
    if fs.len() == 0 {
        Map::empty()
    } else {
        let m = grouped_paths(fs.drop_last(), collect_errors);
        let f = fs.last();
        if listed(f, collect_errors) {
            let o = org_key(f.claims->Ok_0);
            let before = if m.dom().contains(o) {
                m[o]
            } else {
                seq![]
            };
            m.insert(o, before.push(f.path@))
        } else {
            m
        }
    }
}

/// The claims of the listed tokens, by organization, in the same order.
pub open spec fn grouped_claims(fs: Seq<TokenFile>, collect_errors: bool) -> Map<
    Seq<char>,
    Seq<TokenInfo>,
>
    decreases fs.len(),
{
    if fs.len() == 0 {
        Map::empty()
    } else {
        let m = grouped_claims(fs.drop_last(), collect_errors);
        let f = fs.last();
        if listed(f, collect_errors) {
            let o = org_key(f.claims->Ok_0);
            let before = if m.dom().contains(o) {
                m[o]
            } else {
                seq![]
            };
            m.insert(o, before.push(f.claims->Ok_0))
        } else {
            m
        }
    }
}

/// The unusable tokens, by path, with the reason, when errors are collected:
/// `expired`, or the error met while reading the claims.
pub open spec fn token_errors(fs: Seq<TokenFile>, collect_errors: bool) -> Map<
    Seq<char>,
    Seq<char>,
>
    decreases fs.len(),
{
    if fs.len() == 0 || !collect_errors {
        Map::empty()
    } else {
        let m = token_errors(fs.drop_last(), collect_errors);
        let f = fs.last();
        match f.claims {
            Ok(_) => if f.expired {
                m.insert(f.path@, "expired"@)
            } else {
                m
            },
            Err(e) => m.insert(f.path@, e@),
        }
    }
}

pub open spec fn path_lists(m: Map<Seq<char>, Vec<String>>) -> Map<Seq<char>, Seq<Seq<char>>> {
    m.map_values(|v: Vec<String>| strs(v@))
}

pub open spec fn claim_lists(m: Map<Seq<char>, Vec<TokenInfo>>) -> Map<Seq<char>, Seq<TokenInfo>> {
    m.map_values(|v: Vec<TokenInfo>| v@)
}

pub open spec fn error_texts(m: Map<Seq<char>, String>) -> Map<Seq<char>, Seq<char>> {
    m.map_values(|v: String| v@)
}

/// The saved tokens grouped by organization: the paths, the claims in the
/// same order, and (when `collect_errors`) the tokens that cannot be used.
pub fn group_tokens(files: Vec<TokenFile>, collect_errors: bool) -> (r: (
    StrMap<Vec<String>>,
    StrMap<Vec<TokenInfo>>,
    StrMap<String>,
))
    ensures
        r.0.wf(),
        r.1.wf(),
        r.2.wf(),
        path_lists(r.0.view()) == grouped_paths(files@, collect_errors),
        claim_lists(r.1.view()) == grouped_claims(files@, collect_errors),
        error_texts(r.2.view()) == token_errors(files@, collect_errors),
{
    let ghost fs = files@;
    let mut tokens: StrMap<Vec<String>> = StrMap::new();
    let mut data: StrMap<Vec<TokenInfo>> = StrMap::new();
    let mut errors: StrMap<String> = StrMap::new();
    let mut files = files;
    let n = files.len();
    let mut i: usize = 0;
    assert(path_lists(tokens.view()) =~= grouped_paths(fs.subrange(0, 0), collect_errors));
    assert(claim_lists(data.view()) =~= grouped_claims(fs.subrange(0, 0), collect_errors));
    assert(error_texts(errors.view()) =~= token_errors(fs.subrange(0, 0), collect_errors));
    while i < n
        invariant
            n == fs.len(),
            i <= n,
            files@ == fs.subrange(i as int, n as int),
            tokens.wf(),
            data.wf(),
            errors.wf(),
            path_lists(tokens.view()) == grouped_paths(fs.subrange(0, i as int), collect_errors),
            claim_lists(data.view()) == grouped_claims(fs.subrange(0, i as int), collect_errors),
            error_texts(errors.view()) == token_errors(fs.subrange(0, i as int), collect_errors),
        decreases n - i,
    {
        let f = files.remove(0);
        let ghost pre = fs.subrange(0, i + 1);
        assert(f == fs[i as int]);
        assert(pre.drop_last() =~= fs.subrange(0, i as int));
        assert(pre.last() == f);
        let ghost old_tokens = tokens.view();
        let ghost old_data = data.view();
        let ghost old_errors = errors.view();
        match f.claims {
            Ok(claims) => {
                if f.expired && collect_errors {
                    errors.insert(f.path, owned("expired"));
                    assert(error_texts(errors.view()) =~= error_texts(old_errors).insert(
                        fs[i as int].path@,
                        "expired"@,
                    ));
                } else {
                    let org = org_key_of(&claims);
                    match tokens.replace(org.as_str(), Vec::new()) {
                        Some(mut ps) => {
                            let ghost before = ps@;
                            ps.push(f.path);
                            assert(strs(ps@) =~= strs(before).push(fs[i as int].path@));
                            tokens.replace(org.as_str(), ps);
                        },
                        None => {
                            let mut ps: Vec<String> = Vec::new();
                            ps.push(f.path);
                            assert(strs(ps@) =~= seq![fs[i as int].path@]);
                            tokens.insert(org.clone(), ps);
                        },
                    }
                    match data.replace(org.as_str(), Vec::new()) {
                        Some(mut cs) => {
                            cs.push(claims);
                            data.replace(org.as_str(), cs);
                        },
                        None => {
                            let mut cs: Vec<TokenInfo> = Vec::new();
                            cs.push(claims);
                            data.insert(org, cs);
                        },
                    }
                    assert(path_lists(tokens.view()) =~= grouped_paths(pre, collect_errors));
                    assert(claim_lists(data.view()) =~= grouped_claims(pre, collect_errors));
                }
            },
            Err(e) => {
                if collect_errors {
                    errors.insert(f.path, e);
                    assert(error_texts(errors.view()) =~= error_texts(old_errors).insert(
                        fs[i as int].path@,
                        fs[i as int].claims->Err_0@,
                    ));
                }
            },
        }
        assert(path_lists(tokens.view()) =~= grouped_paths(pre, collect_errors));
        assert(claim_lists(data.view()) =~= grouped_claims(pre, collect_errors));
        assert(error_texts(errors.view()) =~= token_errors(pre, collect_errors));
        i = i + 1;
    }
    assert(fs.subrange(0, n as int) =~= fs);
    (tokens, data, errors)
}

/// The organization of a token that is being added from a file with text
/// `content`: its claims must be readable and not expired.
pub fn token_file_org(content: &str) -> (r: Result<Option<String>, MgmtError>)
    ensures
        match file_claims(content@) {
            Err(m) => r matches Err(e) && e.msg@ == m,
            Ok(c) => match r {
                Ok(o) => match o {
                    Some(s) => c.1 == Some(s@),
                    None => c.1 is None,
                },
                Err(e) => e.msg@ == "expired"@ && c.2 is Some,
            },
        },
{
    let text = token_text(content);
    match token_claims_of(text.as_str()) {
        Ok(claims) => {
            if token_expired(&claims) {
                return Err(MgmtError { msg: owned("expired") });
            }
            Ok(claims.organization)
        },
        Err(e) => Err(MgmtError { msg: e }),
    }
}

/// The user name of the token with text `content`.
pub fn token_username(content: &str) -> (r: Result<String, String>)
    ensures
        match file_claims(content@) {
            Ok(c) => r matches Ok(u) && u@ == c.0,
            Err(m) => r matches Err(e) && e@ == m,
        },
{
    let text = token_text(content);
    match token_claims_of(text.as_str()) {
        Ok(claims) => Ok(claims.subject),
        Err(e) => Err(e),
    }
}

/// Every token whose claims were read, and which is not an expired token
/// while errors are collected, is listed under its organization.
pub proof fn law_listed_token_is_grouped(fs: Seq<TokenFile>, collect_errors: bool, i: int)
    requires
        0 <= i < fs.len(),
        listed(fs[i], collect_errors),
    ensures
        grouped_paths(fs, collect_errors).dom().contains(org_key(fs[i].claims->Ok_0)),
        grouped_paths(fs, collect_errors)[org_key(fs[i].claims->Ok_0)].contains(fs[i].path@),
    decreases fs.len(),
{
    let m = grouped_paths(fs.drop_last(), collect_errors);
    let f = fs.last();
    let o = org_key(fs[i].claims->Ok_0);
    if i == fs.len() - 1 {
        let before = if m.dom().contains(o) {
            m[o]
        } else {
            seq![]
        };
        assert(before.push(f.path@)[before.len() as int] == f.path@);
    } else {
        assert(fs.drop_last()[i] == fs[i]);
        law_listed_token_is_grouped(fs.drop_last(), collect_errors, i);
        if listed(f, collect_errors) && org_key(f.claims->Ok_0) == o {
            let k = choose|k: int| 0 <= k < m[o].len() && m[o][k] == fs[i].path@;
            assert(m[o].push(f.path@)[k] == fs[i].path@);
        }
    }
}

/// The `i`-th path listed under organization `o` and the `i`-th claims
/// listed under it come from one listed token file, filed under `o`.
pub open spec fn aligned_at(fs: Seq<TokenFile>, collect_errors: bool, o: Seq<char>, i: int) -> bool {
    exists|j: int|
        #![trigger fs[j]]
        0 <= j < fs.len() && listed(fs[j], collect_errors) && fs[j].path@ == grouped_paths(
            fs,
            collect_errors,
        )[o][i] && fs[j].claims == Ok::<TokenInfo, String>(grouped_claims(fs, collect_errors)[o][i])
            && org_key(grouped_claims(fs, collect_errors)[o][i]) == o
}

/// The paths and the claims of the listed tokens are grouped under the same
/// organizations, in lists of the same length, and their entries at one
/// place come from the same token file, filed under that organization.
pub proof fn law_paths_match_claims(fs: Seq<TokenFile>, collect_errors: bool)
    ensures
        grouped_paths(fs, collect_errors).dom() == grouped_claims(fs, collect_errors).dom(),
        forall|o: Seq<char>|
            #![trigger grouped_paths(fs, collect_errors)[o]]
            grouped_paths(fs, collect_errors).dom().contains(o) ==> grouped_paths(fs, collect_errors)[o].len()
                == grouped_claims(fs, collect_errors)[o].len(),
        forall|o: Seq<char>, i: int|
            grouped_paths(fs, collect_errors).dom().contains(o) && 0 <= i < grouped_paths(
                fs,
                collect_errors,
            )[o].len() ==> #[trigger] aligned_at(fs, collect_errors, o, i),
    decreases fs.len(),
{
    if fs.len() > 0 {
        let t = fs.drop_last();
        law_paths_match_claims(t, collect_errors);
        let mp = grouped_paths(t, collect_errors);
        let mc = grouped_claims(t, collect_errors);
        let np = grouped_paths(fs, collect_errors);
        let nc = grouped_claims(fs, collect_errors);
        let f = fs.last();
        let last = fs.len() - 1;
        assert(np.dom() =~= nc.dom());
        assert forall|o: Seq<char>, i: int|
            np.dom().contains(o) && 0 <= i < np[o].len() implies np[o].len() == nc[o].len() && aligned_at(
            fs,
            collect_errors,
            o,
            i,
        ) by {
            let fresh = listed(f, collect_errors) && org_key(f.claims->Ok_0) == o;
            if fresh && i == np[o].len() - 1 {
                assert(fs[last] == f);
            } else {
                assert(mp.dom().contains(o));
                assert(np[o][i] == mp[o][i]);
                assert(nc[o][i] == mc[o][i]);
                assert(aligned_at(t, collect_errors, o, i));
                let j = choose|j: int|
                    #![trigger t[j]]
                    0 <= j < t.len() && listed(t[j], collect_errors) && t[j].path@ == mp[o][i]
                        && t[j].claims == Ok::<TokenInfo, String>(mc[o][i]) && org_key(mc[o][i]) == o;
                assert(fs[j] == t[j]);
            }
        }
    }
}

/// Every reported error is about a token file that is not listed.
proof fn lemma_error_source(fs: Seq<TokenFile>, collect_errors: bool, p: Seq<char>)
    requires
        token_errors(fs, collect_errors).dom().contains(p),
    ensures
        exists|j: int|
            #![trigger fs[j]]
            0 <= j < fs.len() && fs[j].path@ == p && !listed(fs[j], collect_errors),
    decreases fs.len(),
{
    let t = fs.drop_last();
    let f = fs.last();
    let last = fs.len() - 1;
    assert(fs[last] == f);
    if !(f.path@ == p && !listed(f, collect_errors)) {
        assert(token_errors(t, collect_errors).dom().contains(p));
        lemma_error_source(t, collect_errors, p);
        let j = choose|j: int|
            #![trigger t[j]]
            0 <= j < t.len() && t[j].path@ == p && !listed(t[j], collect_errors);
        assert(fs[j] == t[j]);
    }
}

/// No two saved token files share a path.
pub open spec fn paths_distinct(fs: Seq<TokenFile>) -> bool {
    forall|j: int, k: int| 0 <= j < k < fs.len() ==> fs[j].path@ != fs[k].path@
}

/// When no two token files share a path, no listed path is also reported
/// as an error.
pub proof fn law_listed_not_in_errors(fs: Seq<TokenFile>, collect_errors: bool, o: Seq<char>, i: int)
    requires
        paths_distinct(fs),
        grouped_paths(fs, collect_errors).dom().contains(o),
        0 <= i < grouped_paths(fs, collect_errors)[o].len(),
    ensures
        !token_errors(fs, collect_errors).dom().contains(grouped_paths(fs, collect_errors)[o][i]),
{
    law_paths_match_claims(fs, collect_errors);
    assert(aligned_at(fs, collect_errors, o, i));
    let p = grouped_paths(fs, collect_errors)[o][i];
    let j = choose|j: int|
        #![trigger fs[j]]
        0 <= j < fs.len() && listed(fs[j], collect_errors) && fs[j].path@ == p && fs[j].claims
            == Ok::<TokenInfo, String>(grouped_claims(fs, collect_errors)[o][i]) && org_key(
            grouped_claims(fs, collect_errors)[o][i],
        ) == o;
    if token_errors(fs, collect_errors).dom().contains(p) {
        lemma_error_source(fs, collect_errors, p);
        let k = choose|k: int|
            #![trigger fs[k]]
            0 <= k < fs.len() && fs[k].path@ == p && !listed(fs[k], collect_errors);
        assert(j != k);
        if j < k {
            assert(fs[j].path@ != fs[k].path@);
        } else {
            assert(fs[k].path@ != fs[j].path@);
        }
    }
}

/// No error is reported of any token unless errors are collected.
pub proof fn law_errors_only_when_collected(fs: Seq<TokenFile>)
    ensures
        token_errors(fs, false) == Map::<Seq<char>, Seq<char>>::empty(),
{
}

} // verus!
