//! The client: configuration, authentication, and the request builder
//! shared by every endpoint.

use vstd::prelude::*;
use vstd::string::*;
use crate::error::{Error, TransportError};
use crate::json::{JsonValue, json_to_string};
use crate::codec::{
    admin_create_customer_json, admin_update_customer_json, user_create_json, user_patch_json,
    user_groups_replace_json, reset_credentials_json, entitlement_create_json,
    entitlement_update_json, admin_create_key_json, admin_revoke_key_json, download_token_json,
    release_create_json, artifact_register_json, artifact_presign_json,
};
use crate::classify::{classify_document, classify_empty, classify_redirect, classify_upload};
use crate::models::{
    AdminCreateCustomerRequest, AdminCreateCustomerResponse, AdminCreateKeyRequest,
    AdminCreateKeyResponse, AdminCustomerListQuery, AdminCustomerListResponse,
    AdminCustomerResponse, AdminRevokeKeyRequest, AdminRevokeKeyResponse,
    AdminUpdateCustomerRequest, ApiKeyIntrospection, ArtifactPresignRequest,
    ArtifactPresignResponse, ArtifactRegisterRequest, ArtifactRegisterResponse,
    AuditEventListQuery, AuditEventListResponse, DownloadTokenRequest, DownloadTokenResponse,
    EntitlementCreateRequest, EntitlementListQuery, EntitlementListResponse, EntitlementResponse,
    EntitlementUpdateRequest, HealthResponse, ReleaseCreateRequest, ReleaseListQuery,
    ReleaseListResponse, ReleaseResponse, ResetCredentialsRequest, UserCreateRequest,
    UserGroupsReplaceRequest, UserListQuery, UserListResponse, UserPatchRequest, UserResponse,
};
use crate::request::{
    Method, PreparedRequest, RequestView, pairs_view, joined_url, url_with_query, join_url,
    append_query, add_pair, add_opt_str, add_opt_i64, add_opt_i32, add_opt_bool, opt_pair_str,
    opt_pair_i64, opt_pair_i32, opt_pair_bool, method_text,
};
use crate::transport;

verus! {

/// Authentication strategy for API requests. Exactly one variant is
/// active per client instance, and it alone decides which credential
/// header every outgoing request carries.
#[derive(Clone, Debug, PartialEq, Eq)]
pub enum Auth {
    /// No credential header.
    NoAuth,
    /// Shared secret sent as `x-releasy-admin-key`.
    AdminKey(String),
    /// Shared secret sent as `x-releasy-api-key`.
    ApiKey(String),
    /// Operator JWT sent as `authorization: Bearer <token>`.
    OperatorJwt(String),
}

/// The credential header an Auth variant contributes: none, or exactly
/// one name/value pair.
pub open spec fn auth_pair(a: Auth) -> Option<(Seq<char>, Seq<char>)> {
    match a {
        Auth::NoAuth => None,
        Auth::AdminKey(k) => Some(("x-releasy-admin-key"@, k@)),
        Auth::ApiKey(k) => Some(("x-releasy-api-key"@, k@)),
        Auth::OperatorJwt(t) => Some(("authorization"@, "Bearer "@ + t@)),
    }
}

/// The header list of every outgoing request: `accept`, then the
/// configured user agent, then the credential header of the active Auth,
/// then the caller's idempotency key — each of the last three only when
/// present.
pub open spec fn header_seq(a: Auth, ua: Option<Seq<char>>, idem: Option<Seq<char>>) -> Seq<
    (Seq<char>, Seq<char>),
> {
    seq![("accept"@, "application/json"@)] + (match ua {
        Some(u) => seq![("user-agent"@, u)],
        None => Seq::empty(),
    }) + (match auth_pair(a) {
        Some(p) => seq![p],
        None => Seq::empty(),
    }) + (match idem {
        Some(k) => seq![("idempotency-key"@, k)],
        None => Seq::empty(),
    })
}

/// The names of the three credential headers.
pub open spec fn is_auth_header_name(n: Seq<char>) -> bool {
    n == "x-releasy-admin-key"@ || n == "x-releasy-api-key"@ || n == "authorization"@
}

/// For every Auth variant, the built header list carries the credential
/// header of that variant and no other: none at all without credentials,
/// and never more than one.
pub proof fn lemma_exactly_one_auth_header(a: Auth, ua: Option<Seq<char>>, idem: Option<Seq<char>>)
    ensures
        ({
            let hs = header_seq(a, ua, idem);
            &&& (auth_pair(a) is None ==> forall|i: int|
                0 <= i < hs.len() ==> !is_auth_header_name(#[trigger] hs[i].0))
            &&& (auth_pair(a) is Some ==> exists|i: int|
                0 <= i < hs.len() && #[trigger] hs[i] == auth_pair(a)->0)
            &&& (auth_pair(a) is Some ==> forall|i: int|
                0 <= i < hs.len() && is_auth_header_name(#[trigger] hs[i].0) ==> hs[i] == auth_pair(
                    a,
                )->0)
        }),
{
    broadcast use vstd::string::group_string_axioms;

    reveal_strlit("accept");
    reveal_strlit("user-agent");
    reveal_strlit("idempotency-key");
    reveal_strlit("x-releasy-admin-key");
    reveal_strlit("x-releasy-api-key");
    reveal_strlit("authorization");
    let hs = header_seq(a, ua, idem);
    assert("accept"@.len() == 6);
    assert("user-agent"@.len() == 10);
    assert("idempotency-key"@.len() == 15);
    assert("x-releasy-admin-key"@.len() == 19);
    assert("x-releasy-api-key"@.len() == 17);
    assert("authorization"@.len() == 13);
    let acc = ("accept"@, "application/json"@);
    assert(!is_auth_header_name(acc.0));
    assert(!is_auth_header_name("user-agent"@));
    assert(!is_auth_header_name("idempotency-key"@));
    let ap = auth_pair(a);
    if ap is Some {
        let p = ap->0;
        if ua is Some && idem is Some {
            assert(hs =~= seq![acc, ("user-agent"@, ua->0), p, ("idempotency-key"@, idem->0)]);
            assert(hs[2] == p);
        } else if ua is Some {
            assert(hs =~= seq![acc, ("user-agent"@, ua->0), p]);
            assert(hs[2] == p);
        } else if idem is Some {
            assert(hs =~= seq![acc, p, ("idempotency-key"@, idem->0)]);
            assert(hs[1] == p);
        } else {
            assert(hs =~= seq![acc, p]);
            assert(hs[1] == p);
        }
    } else {
        if ua is Some && idem is Some {
            assert(hs =~= seq![acc, ("user-agent"@, ua->0), ("idempotency-key"@, idem->0)]);
        } else if ua is Some {
            assert(hs =~= seq![acc, ("user-agent"@, ua->0)]);
        } else if idem is Some {
            assert(hs =~= seq![acc, ("idempotency-key"@, idem->0)]);
        } else {
            assert(hs =~= seq![acc]);
        }
    }
}

/// Building a request from the same input twice yields identical
/// requests: the same method, the same URL byte for byte, the same
/// header pairs in the same order, and the same body. Every request
/// builder pins its result to [`spec_prepared`] of its inputs alone, so
/// two results of equal inputs coincide.
pub proof fn lemma_request_building_idempotent(
    r1: PreparedRequest,
    r2: PreparedRequest,
    base: Seq<char>,
    a: Auth,
    ua: Option<Seq<char>>,
    m: Method,
    path: Seq<char>,
    q: Seq<(Seq<char>, Seq<char>)>,
    idem: Option<Seq<char>>,
    body: Option<Seq<char>>,
)
    requires
        r1@ == spec_prepared(base, a, ua, m, path, q, idem, body),
        r2@ == spec_prepared(base, a, ua, m, path, q, idem, body),
    ensures
        r1@.method == r2@.method,
        r1@.url == r2@.url,
        r1@.headers == r2@.headers,
        r1@.body == r2@.body,
{
}

/// A boolean filter is encoded as the literal `true`/`false` and is
/// present exactly when the field is set: the release list query carries
/// an `include_artifacts` pair if and only if the input holds one, with
/// that exact encoding.
pub proof fn lemma_bool_filter_encoding(q: ReleaseListQuery)
    ensures
        ({
            let pairs = release_query_pairs(q);
            &&& (match q.include_artifacts {
                Some(b) => exists|i: int|
                    0 <= i < pairs.len() && #[trigger] pairs[i] == (
                        "include_artifacts"@,
                        crate::text::bool_lit(b),
                    ),
                None => forall|i: int|
                    0 <= i < pairs.len() ==> (#[trigger] pairs[i]).0 != "include_artifacts"@,
            })
        }),
{
    broadcast use vstd::string::group_string_axioms;

    reveal_strlit("product");
    reveal_strlit("version");
    reveal_strlit("status");
    reveal_strlit("include_artifacts");
    reveal_strlit("limit");
    reveal_strlit("offset");
    assert("product"@.len() == 7);
    assert("version"@.len() == 7);
    assert("status"@.len() == 6);
    assert("include_artifacts"@.len() == 17);
    assert("limit"@.len() == 5);
    assert("offset"@.len() == 6);
    assert("product"@[0] == 'p' && "version"@[0] == 'v');
    let p1 = opt_pair_str("product"@, q.product);
    let p2 = opt_pair_str("version"@, q.version);
    let p3 = opt_pair_str("status"@, q.status);
    let pb = opt_pair_bool("include_artifacts"@, q.include_artifacts);
    let p4 = opt_pair_i32("limit"@, q.limit);
    let p5 = opt_pair_i32("offset"@, q.offset);
    let pairs = release_query_pairs(q);
    assert(pairs =~= (p1 + p2 + p3) + (pb + (p4 + p5)));
    match q.include_artifacts {
        Some(b) => {
            let at = (p1 + p2 + p3).len() as int;
            assert(pairs[at] == ("include_artifacts"@, crate::text::bool_lit(b)));
        },
        None => {},
    }
}

/// An integer filter is encoded in base-10 decimal and is present
/// exactly when the field is set: the audit-event query carries a
/// `created_from` pair if and only if the input holds one, with that
/// exact encoding.
#[verifier::rlimit(30)]
pub proof fn lemma_int_filter_encoding(q: AuditEventListQuery)
    ensures
        ({
            let pairs = audit_query_pairs(q);
            &&& (match q.created_from {
                Some(n) => exists|i: int|
                    0 <= i < pairs.len() && #[trigger] pairs[i] == (
                        "created_from"@,
                        crate::text::dec_of_int(n as int),
                    ),
                None => forall|i: int|
                    0 <= i < pairs.len() ==> (#[trigger] pairs[i]).0 != "created_from"@,
            })
        }),
{
    broadcast use vstd::string::group_string_axioms;

    reveal_strlit("customer_id");
    reveal_strlit("actor");
    reveal_strlit("event");
    reveal_strlit("created_from");
    reveal_strlit("created_to");
    reveal_strlit("limit");
    reveal_strlit("offset");
    assert("customer_id"@.len() == 11);
    assert("actor"@.len() == 5);
    assert("event"@.len() == 5);
    assert("created_from"@.len() == 12);
    assert("created_to"@.len() == 10);
    assert("limit"@.len() == 5);
    assert("offset"@.len() == 6);
    assert("actor"@[0] == 'a' && "event"@[0] == 'e' && "limit"@[0] == 'l');
    let p1 = opt_pair_str("customer_id"@, q.customer_id);
    let p2 = opt_pair_str("actor"@, q.actor);
    let p3 = opt_pair_str("event"@, q.event);
    let pf = opt_pair_i64("created_from"@, q.created_from);
    let p4 = opt_pair_i64("created_to"@, q.created_to);
    let p5 = opt_pair_i32("limit"@, q.limit);
    let p6 = opt_pair_i32("offset"@, q.offset);
    let pairs = audit_query_pairs(q);
    assert(pairs =~= (p1 + p2 + p3) + (pf + (p4 + (p5 + p6))));
    match q.created_from {
        Some(n) => {
            let at = (p1 + p2 + p3).len() as int;
            assert(pairs[at] == ("created_from"@, crate::text::dec_of_int(n as int)));
        },
        None => {},
    }
}

/// Build the header list for one request.
fn build_headers(a: &Auth, ua: &Option<String>, idem: Option<&str>) -> (h: Vec<(String, String)>)
    ensures
        pairs_view(h@) == header_seq(*a, ua.deep_view(), opt_text(idem)),
{
    let mut h: Vec<(String, String)> = Vec::new();
    proof {
        assert(pairs_view(h@) =~= Seq::<(Seq<char>, Seq<char>)>::empty());
    }
    add_pair(&mut h, "accept", "application/json".to_owned());
    match ua {
        Some(u) => {
            add_pair(&mut h, "user-agent", u.clone());
        },
        None => {},
    }
    match a {
        Auth::NoAuth => {},
        Auth::AdminKey(k) => {
            add_pair(&mut h, "x-releasy-admin-key", k.clone());
        },
        Auth::ApiKey(k) => {
            add_pair(&mut h, "x-releasy-api-key", k.clone());
        },
        Auth::OperatorJwt(t) => {
            add_pair(&mut h, "authorization", "Bearer ".to_owned().concat(t.as_str()));
        },
    }
    match idem {
        Some(key) => {
            add_pair(&mut h, "idempotency-key", key.to_owned());
        },
        None => {},
    }
    proof {
        assert(pairs_view(h@) =~= header_seq(*a, ua.deep_view(), opt_text(idem)));
    }
    h
}

/// The text of an optional borrowed string.
pub open spec fn opt_text(o: Option<&str>) -> Option<Seq<char>> {
    match o {
        Some(s) => Some(s@),
        None => None,
    }
}

/// Whitespace that base-URL normalization trims: the Unicode
/// `White_Space` characters, the set `str::trim` removes.
pub open spec fn is_space(c: char) -> bool {
    ('\u{9}' <= c && c <= '\u{d}') || c == ' ' || c == '\u{85}' || c == '\u{a0}' || c == '\u{1680}'
        || ('\u{2000}' <= c && c <= '\u{200a}') || c == '\u{2028}' || c == '\u{2029}' || c
        == '\u{202f}' || c == '\u{205f}' || c == '\u{3000}'
}

fn is_space_char(c: char) -> (r: bool)
    ensures
        r == is_space(c),
{
    ('\u{9}' <= c && c <= '\u{d}') || c == ' ' || c == '\u{85}' || c == '\u{a0}' || c == '\u{1680}'
        || ('\u{2000}' <= c && c <= '\u{200a}') || c == '\u{2028}' || c == '\u{2029}' || c
        == '\u{202f}' || c == '\u{205f}' || c == '\u{3000}'
}

/// `s` with leading whitespace removed.
pub open spec fn trim_front(s: Seq<char>) -> Seq<char>
    decreases s.len(),
{
    if s.len() > 0 && is_space(s[0]) {
        trim_front(s.subrange(1, s.len() as int))
    } else {
        s
    }
}

/// `s` with trailing whitespace removed.
pub open spec fn trim_back(s: Seq<char>) -> Seq<char>
    decreases s.len(),
{
    if s.len() > 0 && is_space(s[s.len() - 1]) {
        trim_back(s.subrange(0, s.len() - 1))
    } else {
        s
    }
}

/// `s` with every trailing `'/'` removed.
pub open spec fn strip_trailing_slashes(s: Seq<char>) -> Seq<char>
    decreases s.len(),
{
    if s.len() > 0 && s[s.len() - 1] == '/' {
        strip_trailing_slashes(s.subrange(0, s.len() - 1))
    } else {
        s
    }
}

/// Does `s` start with `p`?
pub open spec fn starts_with_text(s: Seq<char>, p: Seq<char>) -> bool {
    s.len() >= p.len() && s.subrange(0, p.len() as int) == p
}

/// The normalized form of a base URL: trimmed, trailing slashes removed,
/// and present only when the rest is non-empty and carries an `http://`
/// or `https://` scheme.
pub open spec fn normalized_base(s: Seq<char>) -> Option<Seq<char>> {
    let t = strip_trailing_slashes(trim_back(trim_front(s)));
    if t.len() == 0 {
        None
    } else if starts_with_text(t, "http://"@) || starts_with_text(t, "https://"@) {
        Some(t)
    } else {
        None
    }
}

proof fn lemma_trim_front_advance(s: Seq<char>, i: int)
    requires
        0 <= i < s.len(),
        is_space(s[i]),
        forall|k: int| 0 <= k < i ==> is_space(s[k]),
    ensures
        trim_front(s.subrange(i, s.len() as int)) == trim_front(s.subrange(i + 1, s.len() as int)),
{
    let tail = s.subrange(i, s.len() as int);
    assert(is_space(tail[0]));
    assert(tail.subrange(1, tail.len() as int) =~= s.subrange(i + 1, s.len() as int));
}

proof fn lemma_trim_back_retreat(s: Seq<char>, a: int, b: int)
    requires
        0 <= a < b <= s.len(),
        is_space(s[b - 1]),
    ensures
        trim_back(s.subrange(a, b)) == trim_back(s.subrange(a, b - 1)),
{
    let part = s.subrange(a, b);
    assert(is_space(part[part.len() - 1]));
    assert(part.subrange(0, part.len() - 1) =~= s.subrange(a, b - 1));
}

proof fn lemma_slashes_retreat(s: Seq<char>, a: int, b: int)
    requires
        0 <= a < b <= s.len(),
        s[b - 1] == '/',
    ensures
        strip_trailing_slashes(s.subrange(a, b)) == strip_trailing_slashes(s.subrange(a, b - 1)),
{
    let part = s.subrange(a, b);
    assert(part[part.len() - 1] == '/');
    assert(part.subrange(0, part.len() - 1) =~= s.subrange(a, b - 1));
}

/// Normalize a base URL: trim surrounding whitespace, drop trailing
/// slashes, and demand an explicit `http://` or `https://` scheme.
/// Returns the rejected original input inside the error.
pub fn normalize_base_url(base_url: &str) -> (r: Result<String, Error>)
    ensures
        match r {
            Ok(u) => normalized_base(base_url@) == Some(u@),
            Err(e) => normalized_base(base_url@) is None && (match e {
                Error::InvalidBaseUrl(orig) => orig@ == base_url@,
                _ => false,
            }),
        },
{
    let len = base_url.unicode_len();
    let mut a: usize = 0;
    proof {
        assert(base_url@.subrange(0, len as int) =~= base_url@);
    }
    while a < len && is_space_char(base_url.get_char(a))
        invariant
            len == base_url@.len(),
            a <= len,
            trim_front(base_url@) == trim_front(base_url@.subrange(a as int, len as int)),
            forall|k: int| 0 <= k < a ==> is_space(base_url@[k]),
        decreases len - a,
    {
        proof {
            lemma_trim_front_advance(base_url@, a as int);
        }
        a = a + 1;
    }
    proof {
        if a < len {
            assert(base_url@.subrange(a as int, len as int)[0] == base_url@[a as int]);
        } else {
            assert(base_url@.subrange(a as int, len as int).len() == 0);
        }
        assert(trim_front(base_url@) == base_url@.subrange(a as int, len as int));
    }
    let mut b: usize = len;
    while b > a && is_space_char(base_url.get_char(b - 1))
        invariant
            len == base_url@.len(),
            a <= b <= len,
            trim_back(base_url@.subrange(a as int, len as int)) == trim_back(
                base_url@.subrange(a as int, b as int),
            ),
        decreases b,
    {
        proof {
            lemma_trim_back_retreat(base_url@, a as int, b as int);
        }
        b = b - 1;
    }
    proof {
        let part = base_url@.subrange(a as int, b as int);
        if b > a {
            assert(part[part.len() - 1] == base_url@[b - 1]);
        }
        assert(trim_back(base_url@.subrange(a as int, len as int)) == part);
    }
    let mut c: usize = b;
    while c > a && base_url.get_char(c - 1) == '/'
        invariant
            len == base_url@.len(),
            a <= c <= b <= len,
            strip_trailing_slashes(base_url@.subrange(a as int, b as int))
                == strip_trailing_slashes(base_url@.subrange(a as int, c as int)),
        decreases c,
    {
        proof {
            lemma_slashes_retreat(base_url@, a as int, c as int);
        }
        c = c - 1;
    }
    proof {
        let part = base_url@.subrange(a as int, c as int);
        if c > a {
            assert(part[part.len() - 1] == base_url@[c - 1]);
        }
        assert(strip_trailing_slashes(base_url@.subrange(a as int, b as int)) == part);
        assert(strip_trailing_slashes(trim_back(trim_front(base_url@))) == part);
    }
    if c == a {
        return Err(Error::InvalidBaseUrl(base_url.to_owned()));
    }
    let core = base_url.substring_char(a, c);
    if crate::text::has_prefix(core, "http://") || crate::text::has_prefix(core, "https://") {
        Ok(core.to_owned())
    } else {
        Err(Error::InvalidBaseUrl(base_url.to_owned()))
    }
}

/// Blocking HTTP client for the Releasy API. Immutable once built; a
/// derived copy with a different Auth shares the same transport agent.
#[derive(Clone, Debug)]
pub struct Client {
    pub(crate) base_url: String,
    pub(crate) auth: Auth,
    pub(crate) user_agent: Option<String>,
    pub(crate) agent: ureq::Agent,
}

/// Builder for configuring a [`Client`].
#[derive(Clone, Debug)]
pub struct ClientBuilder {
    pub(crate) base_url: String,
    pub(crate) auth: Auth,
    pub(crate) user_agent: Option<String>,
    pub(crate) timeout_global: Option<core::time::Duration>,
    pub(crate) agent: Option<ureq::Agent>,
}

/// Resolved download redirect location.
#[derive(Clone, Debug, PartialEq, Eq)]
pub struct DownloadResolution {
    pub location: String,
}

impl Client {
    /// The stored, already-normalized base URL.
    pub closed spec fn base_spec(&self) -> Seq<char> {
        self.base_url@
    }

    /// The active authentication strategy.
    pub closed spec fn auth_spec(&self) -> Auth {
        self.auth
    }

    /// The configured user agent.
    pub closed spec fn user_agent_spec(&self) -> Option<Seq<char>> {
        self.user_agent.deep_view()
    }

    /// The transport agent.
    pub closed spec fn agent_spec(&self) -> ureq::Agent {
        self.agent
    }
}

/// The request this client addresses at `path` with the given method,
/// query, idempotency key and body: the URL is the base joined with the
/// path and the encoded query, and the headers follow [`header_seq`].
pub open spec fn spec_prepared(
    base: Seq<char>,
    a: Auth,
    ua: Option<Seq<char>>,
    m: Method,
    path: Seq<char>,
    q: Seq<(Seq<char>, Seq<char>)>,
    idem: Option<Seq<char>>,
    body: Option<Seq<char>>,
) -> RequestView {
    RequestView {
        method: m,
        url: url_with_query(joined_url(base, path), q),
        headers: header_seq(a, ua, idem),
        body,
    }
}

fn clone_opt_string(o: &Option<String>) -> (r: Option<String>)
    ensures
        r == *o,
{
    match o {
        Some(s) => Some(s.clone()),
        None => None,
    }
}

impl Client {
    /// Start building a client with the given base URL and auth.
    pub fn builder(base_url: &str, auth: Auth) -> (r: Result<ClientBuilder, Error>)
        ensures
            match r {
                Ok(b) => normalized_base(base_url@) == Some(b.base_spec()) && b.auth_spec() == auth
                    && b.user_agent_spec() is None && b.timeout_spec() is None
                    && b.agent_opt_spec() is None,
                Err(e) => normalized_base(base_url@) is None && (match e {
                    Error::InvalidBaseUrl(orig) => orig@ == base_url@,
                    _ => false,
                }),
            },
    {
        ClientBuilder::new(base_url, auth)
    }

    /// Build a client with default configuration.
    pub fn new(base_url: &str, auth: Auth) -> (r: Result<Client, Error>)
        ensures
            match r {
                Ok(c) => normalized_base(base_url@) == Some(c.base_spec()) && c.auth_spec() == auth
                    && c.user_agent_spec() is None,
                Err(e) => normalized_base(base_url@) is None && (match e {
                    Error::InvalidBaseUrl(orig) => orig@ == base_url@,
                    _ => false,
                }),
            },
    {
        match ClientBuilder::new(base_url, auth) {
            Ok(b) => b.build(),
            Err(e) => Err(e),
        }
    }

    /// A client with the same configuration and transport but a different
    /// authentication strategy; the original is untouched and the base
    /// URL is not re-validated.
    pub fn with_auth(&self, auth: Auth) -> (r: Client)
        ensures
            r.base_spec() == self.base_spec(),
            r.auth_spec() == auth,
            r.user_agent_spec() == self.user_agent_spec(),
            r.agent_spec() == self.agent_spec(),
    {
        Client {
            base_url: self.base_url.clone(),
            auth,
            user_agent: clone_opt_string(&self.user_agent),
            agent: self.agent.clone(),
        }
    }

    /// Assemble the outbound request for one endpoint call.
    pub fn prepare(
        &self,
        m: Method,
        path: &str,
        query: Vec<(String, String)>,
        idem: Option<&str>,
        body: Option<String>,
    ) -> (r: PreparedRequest)
        ensures
            r@ == spec_prepared(
                self.base_spec(),
                self.auth_spec(),
                self.user_agent_spec(),
                m,
                path@,
                pairs_view(query@),
                opt_text(idem),
                body.deep_view(),
            ),
    {
        let target = join_url(&self.base_url, path);
        let url = append_query(target, &query);
        let headers = build_headers(&self.auth, &self.user_agent, idem);
        let r = PreparedRequest { method: m, url, headers, body };
        proof {
            assert(r@ =~~= spec_prepared(
                self.base_spec(),
                self.auth_spec(),
                self.user_agent_spec(),
                m,
                path@,
                pairs_view(query@),
                opt_text(idem),
                r.body.deep_view(),
            ));
        }
        r
    }
}

impl ClientBuilder {
    /// The stored, already-normalized base URL.
    pub closed spec fn base_spec(&self) -> Seq<char> {
        self.base_url@
    }

    /// The authentication strategy the client will use.
    pub closed spec fn auth_spec(&self) -> Auth {
        self.auth
    }

    /// The configured user agent.
    pub closed spec fn user_agent_spec(&self) -> Option<Seq<char>> {
        self.user_agent.deep_view()
    }

    /// The configured global timeout.
    pub closed spec fn timeout_spec(&self) -> Option<core::time::Duration> {
        self.timeout_global
    }

    /// The pre-built transport agent, if any.
    pub closed spec fn agent_opt_spec(&self) -> Option<ureq::Agent> {
        self.agent
    }

    /// Validate and normalize the base URL; reject it before anything
    /// reaches the network.
    pub fn new(base_url: &str, auth: Auth) -> (r: Result<ClientBuilder, Error>)
        ensures
            match r {
                Ok(b) => normalized_base(base_url@) == Some(b.base_spec()) && b.auth_spec() == auth
                    && b.user_agent_spec() is None && b.timeout_spec() is None
                    && b.agent_opt_spec() is None,
                Err(e) => normalized_base(base_url@) is None && (match e {
                    Error::InvalidBaseUrl(orig) => orig@ == base_url@,
                    _ => false,
                }),
            },
    {
        match normalize_base_url(base_url) {
            Ok(normalized) => Ok(
                ClientBuilder {
                    base_url: normalized,
                    auth,
                    user_agent: None,
                    timeout_global: None,
                    agent: None,
                },
            ),
            Err(e) => Err(e),
        }
    }

    /// Set the `user-agent` header value for every request.
    pub fn user_agent(self, value: &str) -> (r: Self)
        ensures
            r.base_spec() == self.base_spec(),
            r.auth_spec() == self.auth_spec(),
            r.user_agent_spec() == Some(value@),
            r.timeout_spec() == self.timeout_spec(),
            r.agent_opt_spec() == self.agent_opt_spec(),
    {
        ClientBuilder { user_agent: Some(value.to_owned()), ..self }
    }

    /// Set a global timeout on the transport built for this client.
    pub fn timeout_global(self, timeout: core::time::Duration) -> (r: Self)
        ensures
            r.base_spec() == self.base_spec(),
            r.auth_spec() == self.auth_spec(),
            r.user_agent_spec() == self.user_agent_spec(),
            r.timeout_spec() == Some(timeout),
            r.agent_opt_spec() == self.agent_opt_spec(),
    {
        ClientBuilder { timeout_global: Some(timeout), ..self }
    }

    /// Use a pre-built transport agent.
    pub fn agent(self, agent: ureq::Agent) -> (r: Self)
        ensures
            r.base_spec() == self.base_spec(),
            r.auth_spec() == self.auth_spec(),
            r.user_agent_spec() == self.user_agent_spec(),
            r.timeout_spec() == self.timeout_spec(),
            r.agent_opt_spec() == Some(agent),
    {
        ClientBuilder { agent: Some(agent), ..self }
    }

    /// Build the client. Construction always succeeds: the base URL was
    /// validated when the builder was made.
    pub fn build(self) -> (r: Result<Client, Error>)
        ensures
            r is Ok,
            ({
                let c = r->Ok_0;
                &&& c.base_spec() == self.base_spec()
                &&& c.auth_spec() == self.auth_spec()
                &&& c.user_agent_spec() == self.user_agent_spec()
                &&& (self.agent_opt_spec() is Some ==> c.agent_spec() == self.agent_opt_spec()->0)
            }),
    {
        let agent = match self.agent {
            Some(agent) => agent,
            None => match self.timeout_global {
                Some(timeout) => transport::make_agent_with_timeout(timeout),
                None => transport::make_agent(),
            },
        };
        Ok(Client { base_url: self.base_url, auth: self.auth, user_agent: self.user_agent, agent })
    }
}

/// The query pairs of the audit-event list endpoint, in field order;
/// a pair is present exactly when the filter is set.
pub open spec fn audit_query_pairs(q: AuditEventListQuery) -> Seq<(Seq<char>, Seq<char>)> {
    opt_pair_str("customer_id"@, q.customer_id) + opt_pair_str("actor"@, q.actor) + opt_pair_str(
        "event"@,
        q.event,
    ) + opt_pair_i64("created_from"@, q.created_from) + opt_pair_i64("created_to"@, q.created_to)
        + opt_pair_i32("limit"@, q.limit) + opt_pair_i32("offset"@, q.offset)
}

/// Build the audit-event query pairs.
pub fn audit_query(q: &AuditEventListQuery) -> (v: Vec<(String, String)>)
    ensures
        pairs_view(v@) == audit_query_pairs(*q),
{
    let mut v: Vec<(String, String)> = Vec::new();
    add_opt_str(&mut v, "customer_id", &q.customer_id);
    add_opt_str(&mut v, "actor", &q.actor);
    add_opt_str(&mut v, "event", &q.event);
    add_opt_i64(&mut v, "created_from", &q.created_from);
    add_opt_i64(&mut v, "created_to", &q.created_to);
    add_opt_i32(&mut v, "limit", &q.limit);
    add_opt_i32(&mut v, "offset", &q.offset);
    proof {
        assert(pairs_view(v@) =~= audit_query_pairs(*q));
    }
    v
}

/// The query pairs of the customer list endpoint, as [`audit_query_pairs`].
pub open spec fn customer_query_pairs(q: AdminCustomerListQuery) -> Seq<(Seq<char>, Seq<char>)> {
    opt_pair_str("customer_id"@, q.customer_id) + opt_pair_str("name"@, q.name) + opt_pair_str(
        "plan"@,
        q.plan,
    ) + opt_pair_i32("limit"@, q.limit) + opt_pair_i32("offset"@, q.offset)
}

/// Build the customer list query pairs.
pub fn customer_query(q: &AdminCustomerListQuery) -> (v: Vec<(String, String)>)
    ensures
        pairs_view(v@) == customer_query_pairs(*q),
{
    let mut v: Vec<(String, String)> = Vec::new();
    add_opt_str(&mut v, "customer_id", &q.customer_id);
    add_opt_str(&mut v, "name", &q.name);
    add_opt_str(&mut v, "plan", &q.plan);
    add_opt_i32(&mut v, "limit", &q.limit);
    add_opt_i32(&mut v, "offset", &q.offset);
    proof {
        assert(pairs_view(v@) =~= customer_query_pairs(*q));
    }
    v
}

/// The query pairs of the user list endpoint, as [`audit_query_pairs`].
pub open spec fn user_query_pairs(q: UserListQuery) -> Seq<(Seq<char>, Seq<char>)> {
    opt_pair_str("customer_id"@, q.customer_id) + opt_pair_str("email"@, q.email) + opt_pair_str(
        "status"@,
        q.status,
    ) + opt_pair_str("keycloak_user_id"@, q.keycloak_user_id) + opt_pair_i64(
        "created_from"@,
        q.created_from,
    ) + opt_pair_i64("created_to"@, q.created_to) + opt_pair_i32("limit"@, q.limit)
        + opt_pair_str("cursor"@, q.cursor)
}

/// Build the user list query pairs.
pub fn user_query(q: &UserListQuery) -> (v: Vec<(String, String)>)
    ensures
        pairs_view(v@) == user_query_pairs(*q),
{
    let mut v: Vec<(String, String)> = Vec::new();
    add_opt_str(&mut v, "customer_id", &q.customer_id);
    add_opt_str(&mut v, "email", &q.email);
    add_opt_str(&mut v, "status", &q.status);
    add_opt_str(&mut v, "keycloak_user_id", &q.keycloak_user_id);
    add_opt_i64(&mut v, "created_from", &q.created_from);
    add_opt_i64(&mut v, "created_to", &q.created_to);
    add_opt_i32(&mut v, "limit", &q.limit);
    add_opt_str(&mut v, "cursor", &q.cursor);
    proof {
        assert(pairs_view(v@) =~= user_query_pairs(*q));
    }
    v
}

/// The query pairs of the entitlement list endpoint, as
/// [`audit_query_pairs`].
pub open spec fn entitlement_query_pairs(q: EntitlementListQuery) -> Seq<(Seq<char>, Seq<char>)> {
    opt_pair_str("product"@, q.product) + opt_pair_i32("limit"@, q.limit) + opt_pair_i32(
        "offset"@,
        q.offset,
    )
}

/// Build the entitlement list query pairs.
pub fn entitlement_query(q: &EntitlementListQuery) -> (v: Vec<(String, String)>)
    ensures
        pairs_view(v@) == entitlement_query_pairs(*q),
{
    let mut v: Vec<(String, String)> = Vec::new();
    add_opt_str(&mut v, "product", &q.product);
    add_opt_i32(&mut v, "limit", &q.limit);
    add_opt_i32(&mut v, "offset", &q.offset);
    proof {
        assert(pairs_view(v@) =~= entitlement_query_pairs(*q));
    }
    v
}

/// The query pairs of the release list endpoint, as
/// [`audit_query_pairs`]; the boolean filter encodes as literal
/// `true`/`false`.
pub open spec fn release_query_pairs(q: ReleaseListQuery) -> Seq<(Seq<char>, Seq<char>)> {
    opt_pair_str("product"@, q.product) + opt_pair_str("version"@, q.version) + opt_pair_str(
        "status"@,
        q.status,
    ) + opt_pair_bool("include_artifacts"@, q.include_artifacts) + opt_pair_i32(
        "limit"@,
        q.limit,
    ) + opt_pair_i32("offset"@, q.offset)
}

/// Build the release list query pairs.
pub fn release_query(q: &ReleaseListQuery) -> (v: Vec<(String, String)>)
    ensures
        pairs_view(v@) == release_query_pairs(*q),
{
    let mut v: Vec<(String, String)> = Vec::new();
    add_opt_str(&mut v, "product", &q.product);
    add_opt_str(&mut v, "version", &q.version);
    add_opt_str(&mut v, "status", &q.status);
    add_opt_bool(&mut v, "include_artifacts", &q.include_artifacts);
    add_opt_i32(&mut v, "limit", &q.limit);
    add_opt_i32(&mut v, "offset", &q.offset);
    proof {
        assert(pairs_view(v@) =~= release_query_pairs(*q));
    }
    v
}

fn path1(prefix: &str, a: &str) -> (r: String)
    ensures
        r@ == prefix@ + a@,
{
    prefix.to_owned().concat(a)
}

fn path2(prefix: &str, a: &str, mid: &str, b: &str) -> (r: String)
    ensures
        r@ == prefix@ + a@ + mid@ + b@,
{
    prefix.to_owned().concat(a).concat(mid).concat(b)
}

/// An error a completed call can return: a classified API failure or a
/// transport failure.
pub open spec fn call_error(e: Error) -> bool {
    e is Api || e is Transport
}

fn build_http_request(req: &PreparedRequest) -> (r: Result<ureq::http::Request<String>, Error>)
    ensures
        r matches Err(e) ==> e matches Error::Transport(TransportError::Network(_)),
        r matches Ok(q) ==> transport::request_method(q) == method_text(req@.method)
            && transport::request_target(q) == transport::target_of(req@.url)
            && transport::request_body_text(q) == (match req@.body {
            Some(b) => b,
            None => Seq::<char>::empty(),
        }) && (transport::valid_header_pairs(req@.headers) ==> transport::request_headers(q)
            == req@.headers),
{
    let mut b = transport::new_request_builder();
    proof {
        crate::request::lemma_method_name_accepted(req.method);
    }
    b = transport::builder_set_method(b, req.method.as_str());
    b = transport::builder_set_uri(b, req.url.as_str());
    proof {
        assert(req@.headers.subrange(0, 0) =~= Seq::<(Seq<char>, Seq<char>)>::empty());
    }
    let count = req.headers.len();
    let mut i: usize = 0;
    while i < count
        invariant
            count == req.headers@.len(),
            i <= count,
            req@.headers.len() == count,
            transport::builder_ok(b) ==> transport::builder_method(b) == method_text(req.method)
                && transport::builder_target(b) == transport::target_of(req@.url),
            transport::valid_header_pairs(req@.headers) && transport::builder_ok(b)
                ==> transport::builder_headers(b) == req@.headers.subrange(0, i as int),
        decreases count - i,
    {
        proof {
            assert(req@.headers[i as int] == (
                req.headers@[i as int].0@,
                req.headers@[i as int].1@,
            ));
        }
        let ghost before = b;
        b = transport::builder_add_header(
            b,
            req.headers[i].0.as_str(),
            req.headers[i].1.as_str(),
        );
        proof {
            if transport::valid_header_pairs(req@.headers) && transport::builder_ok(b) {
                assert(transport::builder_ok(before));
                assert(transport::builder_headers(before) == req@.headers.subrange(0, i as int));
                assert(transport::header_name_text(req@.headers[i as int].0));
                assert(transport::header_value_text(req@.headers[i as int].1));
                assert(req@.headers.subrange(0, i as int).len() == i);
                assert(transport::builder_headers(b) == transport::builder_headers(before).push(
                    req@.headers[i as int],
                ));
                assert(req@.headers.subrange(0, i + 1 as int) =~= req@.headers.subrange(
                    0,
                    i as int,
                ).push(req@.headers[i as int]));
            }
        }
        i = i + 1;
    }
    let payload: String = match &req.body {
        Some(s) => s.clone(),
        None => String::new(),
    };
    match transport::finish_request(b, payload) {
        Ok(q) => {
            proof {
                assert(req@.headers.subrange(0, count as int) =~= req@.headers);
            }
            Ok(q)
        },
        Err(e) => Err(Error::Transport(TransportError::Network(e))),
    }
}

fn send_prepared(agent: &ureq::Agent, req: &PreparedRequest) -> (r: Result<
    ureq::http::Response<ureq::Body>,
    Error,
>)
    ensures
        r is Err ==> r->Err_0 matches Error::Transport(TransportError::Network(_)),
{
    let request = match build_http_request(req) {
        Ok(q) => q,
        Err(e) => {
            return Err(e);
        },
    };
    match transport::run_request(agent, request) {
        Ok(resp) => Ok(resp),
        Err(e) => Err(Error::Transport(TransportError::Network(e))),
    }
}

fn fetch_document(agent: &ureq::Agent, req: &PreparedRequest) -> (r: Result<
    (JsonValue, String),
    Error,
>)
    ensures
        r is Err ==> call_error(r->Err_0),
        r is Ok ==> crate::json::sp_document((r->Ok_0).1@) == Some(crate::json::jmodel(
            (r->Ok_0).0,
        )),
{
    let resp = match send_prepared(agent, req) {
        Ok(x) => x,
        Err(e) => {
            return Err(e);
        },
    };
    let status = transport::response_status(&resp);
    let body = match transport::read_body_text(resp) {
        Ok(t) => t,
        Err(e) => {
            return Err(Error::Transport(TransportError::Network(e)));
        },
    };
    classify_document(status, body)
}


impl Client {
    /// The outbound request of [`Client::openapi_json`].
    pub fn openapi_json_request(&self) -> (r: PreparedRequest)
        ensures
            r@ == spec_prepared(self.base_spec(), self.auth_spec(), self.user_agent_spec(), Method::Get, "/openapi.json"@, Seq::empty(), None, None),
    {
        let r = self.prepare(Method::Get, "/openapi.json", Vec::new(), None, None);
        proof {
            assert(pairs_view(Seq::<(String, String)>::empty()) =~= Seq::<
                (Seq<char>, Seq<char>),
            >::empty());
            assert(r@ =~~= spec_prepared(self.base_spec(), self.auth_spec(), self.user_agent_spec(), Method::Get, "/openapi.json"@, Seq::empty(), None, None));
        }
        r
    }

    /// Fetch the OpenAPI document from the server.
    pub fn openapi_json(&self) -> (r: Result<JsonValue, Error>)
        ensures
            r is Err ==> call_error(r->Err_0),
    {
        let req = self.openapi_json_request();
        let pair = match fetch_document(&self.agent, &req) {
            Ok(p) => p,
            Err(e) => {
                return Err(e);
            },
        };
        let (doc, _raw) = pair;
        Ok(doc)
    }

    /// The outbound request of [`Client::health_check`].
    pub fn health_check_request(&self) -> (r: PreparedRequest)
        ensures
            r@ == spec_prepared(self.base_spec(), self.auth_spec(), self.user_agent_spec(), Method::Get, "/health"@, Seq::empty(), None, None),
    {
        let r = self.prepare(Method::Get, "/health", Vec::new(), None, None);
        proof {
            assert(pairs_view(Seq::<(String, String)>::empty()) =~= Seq::<
                (Seq<char>, Seq<char>),
            >::empty());
            assert(r@ =~~= spec_prepared(self.base_spec(), self.auth_spec(), self.user_agent_spec(), Method::Get, "/health"@, Seq::empty(), None, None));
        }
        r
    }

    /// Check service health (API and database).
    pub fn health_check(&self) -> (r: Result<HealthResponse, Error>)
        ensures
            r is Err ==> call_error(r->Err_0),
    {
        let req = self.health_check_request();
        let pair = match fetch_document(&self.agent, &req) {
            Ok(p) => p,
            Err(e) => {
                return Err(e);
            },
        };
        let (doc, raw) = pair;
        match HealthResponse::of_json(&doc) {
            Some(x) => Ok(x),
            None => Err(Error::Transport(TransportError::Decode(raw))),
        }
    }

    /// The outbound request of [`Client::live_check`].
    pub fn live_check_request(&self) -> (r: PreparedRequest)
        ensures
            r@ == spec_prepared(self.base_spec(), self.auth_spec(), self.user_agent_spec(), Method::Get, "/live"@, Seq::empty(), None, None),
    {
        let r = self.prepare(Method::Get, "/live", Vec::new(), None, None);
        proof {
            assert(pairs_view(Seq::<(String, String)>::empty()) =~= Seq::<
                (Seq<char>, Seq<char>),
            >::empty());
            assert(r@ =~~= spec_prepared(self.base_spec(), self.auth_spec(), self.user_agent_spec(), Method::Get, "/live"@, Seq::empty(), None, None));
        }
        r
    }

    /// Check service liveness.
    pub fn live_check(&self) -> (r: Result<HealthResponse, Error>)
        ensures
            r is Err ==> call_error(r->Err_0),
    {
        let req = self.live_check_request();
        let pair = match fetch_document(&self.agent, &req) {
            Ok(p) => p,
            Err(e) => {
                return Err(e);
            },
        };
        let (doc, raw) = pair;
        match HealthResponse::of_json(&doc) {
            Some(x) => Ok(x),
            None => Err(Error::Transport(TransportError::Decode(raw))),
        }
    }

    /// The outbound request of [`Client::ready_check`].
    pub fn ready_check_request(&self) -> (r: PreparedRequest)
        ensures
            r@ == spec_prepared(self.base_spec(), self.auth_spec(), self.user_agent_spec(), Method::Get, "/ready"@, Seq::empty(), None, None),
    {
        let r = self.prepare(Method::Get, "/ready", Vec::new(), None, None);
        proof {
            assert(pairs_view(Seq::<(String, String)>::empty()) =~= Seq::<
                (Seq<char>, Seq<char>),
            >::empty());
            assert(r@ =~~= spec_prepared(self.base_spec(), self.auth_spec(), self.user_agent_spec(), Method::Get, "/ready"@, Seq::empty(), None, None));
        }
        r
    }

    /// Check service readiness.
    pub fn ready_check(&self) -> (r: Result<HealthResponse, Error>)
        ensures
            r is Err ==> call_error(r->Err_0),
    {
        let req = self.ready_check_request();
        let pair = match fetch_document(&self.agent, &req) {
            Ok(p) => p,
            Err(e) => {
                return Err(e);
            },
        };
        let (doc, raw) = pair;
        match HealthResponse::of_json(&doc) {
            Some(x) => Ok(x),
            None => Err(Error::Transport(TransportError::Decode(raw))),
        }
    }

    /// The outbound request of [`Client::list_audit_events`].
    pub fn list_audit_events_request(&self, query: &AuditEventListQuery) -> (r: PreparedRequest)
        ensures
            r@ == spec_prepared(self.base_spec(), self.auth_spec(), self.user_agent_spec(), Method::Get, "/v1/admin/audit-events"@, audit_query_pairs(*query), None, None),
    {
        let q = audit_query(query);
        let r = self.prepare(Method::Get, "/v1/admin/audit-events", q, None, None);
        proof {
            assert(r@ =~~= spec_prepared(self.base_spec(), self.auth_spec(), self.user_agent_spec(), Method::Get, "/v1/admin/audit-events"@, audit_query_pairs(*query), None, None));
        }
        r
    }

    /// List audit events with optional filters.
    pub fn list_audit_events(&self, query: &AuditEventListQuery) -> (r: Result<AuditEventListResponse, Error>)
        ensures
            r is Err ==> call_error(r->Err_0),
    {
        let req = self.list_audit_events_request(query);
        let pair = match fetch_document(&self.agent, &req) {
            Ok(p) => p,
            Err(e) => {
                return Err(e);
            },
        };
        let (doc, raw) = pair;
        match AuditEventListResponse::of_json(&doc) {
            Some(x) => Ok(x),
            None => Err(Error::Transport(TransportError::Decode(raw))),
        }
    }

    /// The outbound request of [`Client::list_customers`].
    pub fn list_customers_request(&self, query: &AdminCustomerListQuery) -> (r: PreparedRequest)
        ensures
            r@ == spec_prepared(self.base_spec(), self.auth_spec(), self.user_agent_spec(), Method::Get, "/v1/admin/customers"@, customer_query_pairs(*query), None, None),
    {
        let q = customer_query(query);
        let r = self.prepare(Method::Get, "/v1/admin/customers", q, None, None);
        proof {
            assert(r@ =~~= spec_prepared(self.base_spec(), self.auth_spec(), self.user_agent_spec(), Method::Get, "/v1/admin/customers"@, customer_query_pairs(*query), None, None));
        }
        r
    }

    /// List customers with optional filters.
    pub fn list_customers(&self, query: &AdminCustomerListQuery) -> (r: Result<AdminCustomerListResponse, Error>)
        ensures
            r is Err ==> call_error(r->Err_0),
    {
        let req = self.list_customers_request(query);
        let pair = match fetch_document(&self.agent, &req) {
            Ok(p) => p,
            Err(e) => {
                return Err(e);
            },
        };
        let (doc, raw) = pair;
        match AdminCustomerListResponse::of_json(&doc) {
            Some(x) => Ok(x),
            None => Err(Error::Transport(TransportError::Decode(raw))),
        }
    }

    /// The outbound request of [`Client::admin_create_customer`].
    pub fn admin_create_customer_request(&self, body: &AdminCreateCustomerRequest, idempotency_key: Option<&str>) -> (r: PreparedRequest)
        ensures
            r@ == spec_prepared(self.base_spec(), self.auth_spec(), self.user_agent_spec(), Method::Post, "/v1/admin/customers"@, Seq::empty(), opt_text(idempotency_key), Some(
                crate::json::ser(admin_create_customer_json(*body)),
            )),
    {
        let text = json_to_string(&body.to_json());
        let r = self.prepare(Method::Post, "/v1/admin/customers", Vec::new(), idempotency_key, Some(text));
        proof {
            assert(pairs_view(Seq::<(String, String)>::empty()) =~= Seq::<
                (Seq<char>, Seq<char>),
            >::empty());
            assert(r@ =~~= spec_prepared(self.base_spec(), self.auth_spec(), self.user_agent_spec(), Method::Post, "/v1/admin/customers"@, Seq::empty(), opt_text(idempotency_key),
                Some(crate::json::ser(admin_create_customer_json(*body)))));
        }
        r
    }

    /// Create a customer (admin only).
    pub fn admin_create_customer(&self, body: &AdminCreateCustomerRequest) -> (r: Result<
        AdminCreateCustomerResponse,
        Error,
    >)
        ensures
            r is Err ==> call_error(r->Err_0),
    {
        self.admin_create_customer_with_idempotency(body, None)
    }

    /// Create a customer with an optional idempotency key.
    pub fn admin_create_customer_with_idempotency(&self, body: &AdminCreateCustomerRequest, idempotency_key: Option<&str>) -> (r: Result<AdminCreateCustomerResponse, Error>)
        ensures
            r is Err ==> call_error(r->Err_0),
    {
        let req = self.admin_create_customer_request(body, idempotency_key);
        let pair = match fetch_document(&self.agent, &req) {
            Ok(p) => p,
            Err(e) => {
                return Err(e);
            },
        };
        let (doc, raw) = pair;
        match AdminCreateCustomerResponse::of_json(&doc) {
            Some(x) => Ok(x),
            None => Err(Error::Transport(TransportError::Decode(raw))),
        }
    }

    /// The outbound request of [`Client::get_customer`].
    pub fn get_customer_request(&self, customer_id: &str) -> (r: PreparedRequest)
        ensures
            r@ == spec_prepared(self.base_spec(), self.auth_spec(), self.user_agent_spec(), Method::Get, "/v1/admin/customers/"@ + customer_id@, Seq::empty(), None, None),
    {
        let path = path1("/v1/admin/customers/", customer_id);
        let r = self.prepare(Method::Get, path.as_str(), Vec::new(), None, None);
        proof {
            assert(pairs_view(Seq::<(String, String)>::empty()) =~= Seq::<
                (Seq<char>, Seq<char>),
            >::empty());
            assert(r@ =~~= spec_prepared(self.base_spec(), self.auth_spec(), self.user_agent_spec(), Method::Get, "/v1/admin/customers/"@ + customer_id@, Seq::empty(), None, None));
        }
        r
    }

    /// Fetch a customer by id.
    pub fn get_customer(&self, customer_id: &str) -> (r: Result<AdminCustomerResponse, Error>)
        ensures
            r is Err ==> call_error(r->Err_0),
    {
        let req = self.get_customer_request(customer_id);
        let pair = match fetch_document(&self.agent, &req) {
            Ok(p) => p,
            Err(e) => {
                return Err(e);
            },
        };
        let (doc, raw) = pair;
        match AdminCustomerResponse::of_json(&doc) {
            Some(x) => Ok(x),
            None => Err(Error::Transport(TransportError::Decode(raw))),
        }
    }

    /// The outbound request of [`Client::update_customer`].
    pub fn update_customer_request(&self, customer_id: &str, body: &AdminUpdateCustomerRequest) -> (r: PreparedRequest)
        ensures
            r@ == spec_prepared(self.base_spec(), self.auth_spec(), self.user_agent_spec(), Method::Patch, "/v1/admin/customers/"@ + customer_id@, Seq::empty(), None, Some(crate::json::ser(admin_update_customer_json(*body)))),
    {
        let text = json_to_string(&body.to_json());
        let path = path1("/v1/admin/customers/", customer_id);
        let r = self.prepare(Method::Patch, path.as_str(), Vec::new(), None, Some(text));
        proof {
            assert(pairs_view(Seq::<(String, String)>::empty()) =~= Seq::<
                (Seq<char>, Seq<char>),
            >::empty());
            assert(r@ =~~= spec_prepared(self.base_spec(), self.auth_spec(), self.user_agent_spec(), Method::Patch, "/v1/admin/customers/"@ + customer_id@, Seq::empty(), None, Some(crate::json::ser(admin_update_customer_json(*body)))));
        }
        r
    }

    /// Update customer fields.
    pub fn update_customer(&self, customer_id: &str, body: &AdminUpdateCustomerRequest) -> (r: Result<AdminCustomerResponse, Error>)
        ensures
            r is Err ==> call_error(r->Err_0),
    {
        let req = self.update_customer_request(customer_id, body);
        let pair = match fetch_document(&self.agent, &req) {
            Ok(p) => p,
            Err(e) => {
                return Err(e);
            },
        };
        let (doc, raw) = pair;
        match AdminCustomerResponse::of_json(&doc) {
            Some(x) => Ok(x),
            None => Err(Error::Transport(TransportError::Decode(raw))),
        }
    }

    /// The outbound request of [`Client::list_users`].
    pub fn list_users_request(&self, query: &UserListQuery) -> (r: PreparedRequest)
        ensures
            r@ == spec_prepared(self.base_spec(), self.auth_spec(), self.user_agent_spec(), Method::Get, "/v1/admin/users"@, user_query_pairs(*query), None, None),
    {
        let q = user_query(query);
        let r = self.prepare(Method::Get, "/v1/admin/users", q, None, None);
        proof {
            assert(r@ =~~= spec_prepared(self.base_spec(), self.auth_spec(), self.user_agent_spec(), Method::Get, "/v1/admin/users"@, user_query_pairs(*query), None, None));
        }
        r
    }

    /// List users with optional filters.
    pub fn list_users(&self, query: &UserListQuery) -> (r: Result<UserListResponse, Error>)
        ensures
            r is Err ==> call_error(r->Err_0),
    {
        let req = self.list_users_request(query);
        let pair = match fetch_document(&self.agent, &req) {
            Ok(p) => p,
            Err(e) => {
                return Err(e);
            },
        };
        let (doc, raw) = pair;
        match UserListResponse::of_json(&doc) {
            Some(x) => Ok(x),
            None => Err(Error::Transport(TransportError::Decode(raw))),
        }
    }

    /// The outbound request of [`Client::create_user`].
    pub fn create_user_request(&self, body: &UserCreateRequest, idempotency_key: Option<&str>) -> (r: PreparedRequest)
        ensures
            r@ == spec_prepared(self.base_spec(), self.auth_spec(), self.user_agent_spec(), Method::Post, "/v1/admin/users"@, Seq::empty(), opt_text(idempotency_key), Some(
                crate::json::ser(user_create_json(*body)),
            )),
    {
        let text = json_to_string(&body.to_json());
        let r = self.prepare(Method::Post, "/v1/admin/users", Vec::new(), idempotency_key, Some(text));
        proof {
            assert(pairs_view(Seq::<(String, String)>::empty()) =~= Seq::<
                (Seq<char>, Seq<char>),
            >::empty());
            assert(r@ =~~= spec_prepared(self.base_spec(), self.auth_spec(), self.user_agent_spec(), Method::Post, "/v1/admin/users"@, Seq::empty(), opt_text(idempotency_key),
                Some(crate::json::ser(user_create_json(*body)))));
        }
        r
    }

    /// Create a user (admin only).
    pub fn create_user(&self, body: &UserCreateRequest) -> (r: Result<UserResponse, Error>)
        ensures
            r is Err ==> call_error(r->Err_0),
    {
        self.create_user_with_idempotency(body, None)
    }

    /// Create a user with an optional idempotency key.
    pub fn create_user_with_idempotency(&self, body: &UserCreateRequest, idempotency_key: Option<&str>) -> (r: Result<UserResponse, Error>)
        ensures
            r is Err ==> call_error(r->Err_0),
    {
        let req = self.create_user_request(body, idempotency_key);
        let pair = match fetch_document(&self.agent, &req) {
            Ok(p) => p,
            Err(e) => {
                return Err(e);
            },
        };
        let (doc, raw) = pair;
        match UserResponse::of_json(&doc) {
            Some(x) => Ok(x),
            None => Err(Error::Transport(TransportError::Decode(raw))),
        }
    }

    /// The outbound request of [`Client::get_user`].
    pub fn get_user_request(&self, user_id: &str) -> (r: PreparedRequest)
        ensures
            r@ == spec_prepared(self.base_spec(), self.auth_spec(), self.user_agent_spec(), Method::Get, "/v1/admin/users/"@ + user_id@, Seq::empty(), None, None),
    {
        let path = path1("/v1/admin/users/", user_id);
        let r = self.prepare(Method::Get, path.as_str(), Vec::new(), None, None);
        proof {
            assert(pairs_view(Seq::<(String, String)>::empty()) =~= Seq::<
                (Seq<char>, Seq<char>),
            >::empty());
            assert(r@ =~~= spec_prepared(self.base_spec(), self.auth_spec(), self.user_agent_spec(), Method::Get, "/v1/admin/users/"@ + user_id@, Seq::empty(), None, None));
        }
        r
    }

    /// Fetch a user by id.
    pub fn get_user(&self, user_id: &str) -> (r: Result<UserResponse, Error>)
        ensures
            r is Err ==> call_error(r->Err_0),
    {
        let req = self.get_user_request(user_id);
        let pair = match fetch_document(&self.agent, &req) {
            Ok(p) => p,
            Err(e) => {
                return Err(e);
            },
        };
        let (doc, raw) = pair;
        match UserResponse::of_json(&doc) {
            Some(x) => Ok(x),
            None => Err(Error::Transport(TransportError::Decode(raw))),
        }
    }

    /// The outbound request of [`Client::patch_user`].
    pub fn patch_user_request(&self, user_id: &str, body: &UserPatchRequest) -> (r: PreparedRequest)
        ensures
            r@ == spec_prepared(self.base_spec(), self.auth_spec(), self.user_agent_spec(), Method::Patch, "/v1/admin/users/"@ + user_id@, Seq::empty(), None, Some(crate::json::ser(user_patch_json(*body)))),
    {
        let text = json_to_string(&body.to_json());
        let path = path1("/v1/admin/users/", user_id);
        let r = self.prepare(Method::Patch, path.as_str(), Vec::new(), None, Some(text));
        proof {
            assert(pairs_view(Seq::<(String, String)>::empty()) =~= Seq::<
                (Seq<char>, Seq<char>),
            >::empty());
            assert(r@ =~~= spec_prepared(self.base_spec(), self.auth_spec(), self.user_agent_spec(), Method::Patch, "/v1/admin/users/"@ + user_id@, Seq::empty(), None, Some(crate::json::ser(user_patch_json(*body)))));
        }
        r
    }

    /// Patch a user by id.
    pub fn patch_user(&self, user_id: &str, body: &UserPatchRequest) -> (r: Result<UserResponse, Error>)
        ensures
            r is Err ==> call_error(r->Err_0),
    {
        let req = self.patch_user_request(user_id, body);
        let pair = match fetch_document(&self.agent, &req) {
            Ok(p) => p,
            Err(e) => {
                return Err(e);
            },
        };
        let (doc, raw) = pair;
        match UserResponse::of_json(&doc) {
            Some(x) => Ok(x),
            None => Err(Error::Transport(TransportError::Decode(raw))),
        }
    }

    /// The outbound request of [`Client::replace_groups`].
    pub fn replace_groups_request(&self, user_id: &str, body: &UserGroupsReplaceRequest) -> (r: PreparedRequest)
        ensures
            r@ == spec_prepared(self.base_spec(), self.auth_spec(), self.user_agent_spec(), Method::Put, "/v1/admin/users/"@ + user_id@ + "/groups"@, Seq::empty(), None, Some(crate::json::ser(user_groups_replace_json(*body)))),
    {
        let text = json_to_string(&body.to_json());
        let path = path1("/v1/admin/users/", user_id).concat("/groups");
        let r = self.prepare(Method::Put, path.as_str(), Vec::new(), None, Some(text));
        proof {
            assert(pairs_view(Seq::<(String, String)>::empty()) =~= Seq::<
                (Seq<char>, Seq<char>),
            >::empty());
            assert(r@ =~~= spec_prepared(self.base_spec(), self.auth_spec(), self.user_agent_spec(), Method::Put, "/v1/admin/users/"@ + user_id@ + "/groups"@, Seq::empty(), None, Some(crate::json::ser(user_groups_replace_json(*body)))));
        }
        r
    }

    /// Replace the user's groups.
    pub fn replace_groups(&self, user_id: &str, body: &UserGroupsReplaceRequest) -> (r: Result<UserResponse, Error>)
        ensures
            r is Err ==> call_error(r->Err_0),
    {
        let req = self.replace_groups_request(user_id, body);
        let pair = match fetch_document(&self.agent, &req) {
            Ok(p) => p,
            Err(e) => {
                return Err(e);
            },
        };
        let (doc, raw) = pair;
        match UserResponse::of_json(&doc) {
            Some(x) => Ok(x),
            None => Err(Error::Transport(TransportError::Decode(raw))),
        }
    }

    /// The outbound request of [`Client::reset_credentials`].
    pub fn reset_credentials_request(&self, user_id: &str, body: &ResetCredentialsRequest) -> (r: PreparedRequest)
        ensures
            r@ == spec_prepared(self.base_spec(), self.auth_spec(), self.user_agent_spec(), Method::Post, "/v1/admin/users/"@ + user_id@ + "/reset-credentials"@, Seq::empty(), None, Some(crate::json::ser(reset_credentials_json(*body)))),
    {
        let text = json_to_string(&body.to_json());
        let path = path1("/v1/admin/users/", user_id).concat("/reset-credentials");
        let r = self.prepare(Method::Post, path.as_str(), Vec::new(), None, Some(text));
        proof {
            assert(pairs_view(Seq::<(String, String)>::empty()) =~= Seq::<
                (Seq<char>, Seq<char>),
            >::empty());
            assert(r@ =~~= spec_prepared(self.base_spec(), self.auth_spec(), self.user_agent_spec(), Method::Post, "/v1/admin/users/"@ + user_id@ + "/reset-credentials"@, Seq::empty(), None, Some(crate::json::ser(reset_credentials_json(*body)))));
        }
        r
    }

    /// Trigger a credential reset for the user; the server answers with a bodiless accepted status.
    pub fn reset_credentials(&self, user_id: &str, body: &ResetCredentialsRequest) -> (r: Result<(), Error>)
        ensures
            r is Err ==> call_error(r->Err_0),
    {
        let req = self.reset_credentials_request(user_id, body);
        let resp = match send_prepared(&self.agent, &req) {
            Ok(x) => x,
            Err(e) => {
                return Err(e);
            },
        };
        let status = transport::response_status(&resp);
        if status == 202 {
            return classify_empty(status, 202, String::new());
        }
        let body = match transport::read_body_text(resp) {
            Ok(t) => t,
            Err(e) => {
                return Err(Error::Transport(TransportError::Network(e)));
            },
        };
        classify_empty(status, 202, body)
    }

    /// The outbound request of [`Client::list_entitlements`].
    pub fn list_entitlements_request(&self, customer_id: &str, query: &EntitlementListQuery) -> (r:
        PreparedRequest)
        ensures
            r@ == spec_prepared(self.base_spec(), self.auth_spec(), self.user_agent_spec(), Method::Get, "/v1/admin/customers/"@ + customer_id@
                + "/entitlements"@, entitlement_query_pairs(*query), None, None),
    {
        let q = entitlement_query(query);
        let path = path1("/v1/admin/customers/", customer_id).concat("/entitlements");
        let r = self.prepare(Method::Get, path.as_str(), q, None, None);
        proof {
            assert(r@ =~~= spec_prepared(self.base_spec(), self.auth_spec(), self.user_agent_spec(), Method::Get, "/v1/admin/customers/"@ + customer_id@
                + "/entitlements"@, entitlement_query_pairs(*query), None, None));
        }
        r
    }

    /// List a customer's entitlements with optional filters.
    pub fn list_entitlements(&self, customer_id: &str, query: &EntitlementListQuery) -> (r: Result<EntitlementListResponse, Error>)
        ensures
            r is Err ==> call_error(r->Err_0),
    {
        let req = self.list_entitlements_request(customer_id, query);
        let pair = match fetch_document(&self.agent, &req) {
            Ok(p) => p,
            Err(e) => {
                return Err(e);
            },
        };
        let (doc, raw) = pair;
        match EntitlementListResponse::of_json(&doc) {
            Some(x) => Ok(x),
            None => Err(Error::Transport(TransportError::Decode(raw))),
        }
    }

    /// The outbound request of [`Client::create_entitlement`].
    pub fn create_entitlement_request(&self, customer_id: &str, body: &EntitlementCreateRequest) -> (r: PreparedRequest)
        ensures
            r@ == spec_prepared(self.base_spec(), self.auth_spec(), self.user_agent_spec(), Method::Post, "/v1/admin/customers/"@ + customer_id@ + "/entitlements"@, Seq::empty(), None, Some(crate::json::ser(entitlement_create_json(*body)))),
    {
        let text = json_to_string(&body.to_json());
        let path = path1("/v1/admin/customers/", customer_id).concat("/entitlements");
        let r = self.prepare(Method::Post, path.as_str(), Vec::new(), None, Some(text));
        proof {
            assert(pairs_view(Seq::<(String, String)>::empty()) =~= Seq::<
                (Seq<char>, Seq<char>),
            >::empty());
            assert(r@ =~~= spec_prepared(self.base_spec(), self.auth_spec(), self.user_agent_spec(), Method::Post, "/v1/admin/customers/"@ + customer_id@ + "/entitlements"@, Seq::empty(), None, Some(crate::json::ser(entitlement_create_json(*body)))));
        }
        r
    }

    /// Create an entitlement for a customer.
    pub fn create_entitlement(&self, customer_id: &str, body: &EntitlementCreateRequest) -> (r: Result<EntitlementResponse, Error>)
        ensures
            r is Err ==> call_error(r->Err_0),
    {
        let req = self.create_entitlement_request(customer_id, body);
        let pair = match fetch_document(&self.agent, &req) {
            Ok(p) => p,
            Err(e) => {
                return Err(e);
            },
        };
        let (doc, raw) = pair;
        match EntitlementResponse::of_json(&doc) {
            Some(x) => Ok(x),
            None => Err(Error::Transport(TransportError::Decode(raw))),
        }
    }

    /// The outbound request of [`Client::update_entitlement`].
    pub fn update_entitlement_request(&self, customer_id: &str, entitlement_id: &str, body: &EntitlementUpdateRequest) -> (r: PreparedRequest)
        ensures
            r@ == spec_prepared(self.base_spec(), self.auth_spec(), self.user_agent_spec(), Method::Patch, "/v1/admin/customers/"@ + customer_id@ + "/entitlements/"@ + entitlement_id@, Seq::empty(), None, Some(crate::json::ser(entitlement_update_json(*body)))),
    {
        let text = json_to_string(&body.to_json());
        let path = path2("/v1/admin/customers/", customer_id, "/entitlements/", entitlement_id);
        let r = self.prepare(Method::Patch, path.as_str(), Vec::new(), None, Some(text));
        proof {
            assert(pairs_view(Seq::<(String, String)>::empty()) =~= Seq::<
                (Seq<char>, Seq<char>),
            >::empty());
            assert(r@ =~~= spec_prepared(self.base_spec(), self.auth_spec(), self.user_agent_spec(), Method::Patch, "/v1/admin/customers/"@ + customer_id@ + "/entitlements/"@ + entitlement_id@, Seq::empty(), None, Some(crate::json::ser(entitlement_update_json(*body)))));
        }
        r
    }

    /// Update an entitlement.
    pub fn update_entitlement(&self, customer_id: &str, entitlement_id: &str, body: &EntitlementUpdateRequest) -> (r: Result<EntitlementResponse, Error>)
        ensures
            r is Err ==> call_error(r->Err_0),
    {
        let req = self.update_entitlement_request(customer_id, entitlement_id, body);
        let pair = match fetch_document(&self.agent, &req) {
            Ok(p) => p,
            Err(e) => {
                return Err(e);
            },
        };
        let (doc, raw) = pair;
        match EntitlementResponse::of_json(&doc) {
            Some(x) => Ok(x),
            None => Err(Error::Transport(TransportError::Decode(raw))),
        }
    }

    /// The outbound request of [`Client::delete_entitlement`].
    pub fn delete_entitlement_request(&self, customer_id: &str, entitlement_id: &str) -> (r: PreparedRequest)
        ensures
            r@ == spec_prepared(self.base_spec(), self.auth_spec(), self.user_agent_spec(), Method::Delete, "/v1/admin/customers/"@ + customer_id@ + "/entitlements/"@ + entitlement_id@, Seq::empty(), None, None),
    {
        let path = path2("/v1/admin/customers/", customer_id, "/entitlements/", entitlement_id);
        let r = self.prepare(Method::Delete, path.as_str(), Vec::new(), None, None);
        proof {
            assert(pairs_view(Seq::<(String, String)>::empty()) =~= Seq::<
                (Seq<char>, Seq<char>),
            >::empty());
            assert(r@ =~~= spec_prepared(self.base_spec(), self.auth_spec(), self.user_agent_spec(), Method::Delete, "/v1/admin/customers/"@ + customer_id@ + "/entitlements/"@ + entitlement_id@, Seq::empty(), None, None));
        }
        r
    }

    /// Delete an entitlement; the server answers with a bodiless no-content status.
    pub fn delete_entitlement(&self, customer_id: &str, entitlement_id: &str) -> (r: Result<(), Error>)
        ensures
            r is Err ==> call_error(r->Err_0),
    {
        let req = self.delete_entitlement_request(customer_id, entitlement_id);
        let resp = match send_prepared(&self.agent, &req) {
            Ok(x) => x,
            Err(e) => {
                return Err(e);
            },
        };
        let status = transport::response_status(&resp);
        if status == 204 {
            return classify_empty(status, 204, String::new());
        }
        let body = match transport::read_body_text(resp) {
            Ok(t) => t,
            Err(e) => {
                return Err(Error::Transport(TransportError::Network(e)));
            },
        };
        classify_empty(status, 204, body)
    }

    /// The outbound request of [`Client::admin_create_key`].
    pub fn admin_create_key_request(&self, body: &AdminCreateKeyRequest) -> (r: PreparedRequest)
        ensures
            r@ == spec_prepared(self.base_spec(), self.auth_spec(), self.user_agent_spec(), Method::Post, "/v1/admin/keys"@, Seq::empty(), None, Some(
                crate::json::ser(admin_create_key_json(*body)),
            )),
    {
        let text = json_to_string(&body.to_json());
        let r = self.prepare(Method::Post, "/v1/admin/keys", Vec::new(), None, Some(text));
        proof {
            assert(pairs_view(Seq::<(String, String)>::empty()) =~= Seq::<
                (Seq<char>, Seq<char>),
            >::empty());
            assert(r@ =~~= spec_prepared(self.base_spec(), self.auth_spec(), self.user_agent_spec(), Method::Post, "/v1/admin/keys"@, Seq::empty(), None,
                Some(crate::json::ser(admin_create_key_json(*body)))));
        }
        r
    }

    /// Create an API key.
    pub fn admin_create_key(&self, body: &AdminCreateKeyRequest) -> (r: Result<AdminCreateKeyResponse, Error>)
        ensures
            r is Err ==> call_error(r->Err_0),
    {
        let req = self.admin_create_key_request(body);
        let pair = match fetch_document(&self.agent, &req) {
            Ok(p) => p,
            Err(e) => {
                return Err(e);
            },
        };
        let (doc, raw) = pair;
        match AdminCreateKeyResponse::of_json(&doc) {
            Some(x) => Ok(x),
            None => Err(Error::Transport(TransportError::Decode(raw))),
        }
    }

    /// The outbound request of [`Client::admin_revoke_key`].
    pub fn admin_revoke_key_request(&self, body: &AdminRevokeKeyRequest) -> (r: PreparedRequest)
        ensures
            r@ == spec_prepared(self.base_spec(), self.auth_spec(), self.user_agent_spec(), Method::Post, "/v1/admin/keys/revoke"@, Seq::empty(), None, Some(
                crate::json::ser(admin_revoke_key_json(*body)),
            )),
    {
        let text = json_to_string(&body.to_json());
        let r = self.prepare(Method::Post, "/v1/admin/keys/revoke", Vec::new(), None, Some(text));
        proof {
            assert(pairs_view(Seq::<(String, String)>::empty()) =~= Seq::<
                (Seq<char>, Seq<char>),
            >::empty());
            assert(r@ =~~= spec_prepared(self.base_spec(), self.auth_spec(), self.user_agent_spec(), Method::Post, "/v1/admin/keys/revoke"@, Seq::empty(), None,
                Some(crate::json::ser(admin_revoke_key_json(*body)))));
        }
        r
    }

    /// Revoke an API key.
    pub fn admin_revoke_key(&self, body: &AdminRevokeKeyRequest) -> (r: Result<AdminRevokeKeyResponse, Error>)
        ensures
            r is Err ==> call_error(r->Err_0),
    {
        let req = self.admin_revoke_key_request(body);
        let pair = match fetch_document(&self.agent, &req) {
            Ok(p) => p,
            Err(e) => {
                return Err(e);
            },
        };
        let (doc, raw) = pair;
        match AdminRevokeKeyResponse::of_json(&doc) {
            Some(x) => Ok(x),
            None => Err(Error::Transport(TransportError::Decode(raw))),
        }
    }

    /// The outbound request of [`Client::auth_introspect`].
    pub fn auth_introspect_request(&self) -> (r: PreparedRequest)
        ensures
            r@ == spec_prepared(self.base_spec(), self.auth_spec(), self.user_agent_spec(), Method::Post, "/v1/auth/introspect"@, Seq::empty(), None, Some(
                Seq::<char>::empty(),
            )),
    {
        let text = String::new();
        let r = self.prepare(Method::Post, "/v1/auth/introspect", Vec::new(), None, Some(text));
        proof {
            assert(pairs_view(Seq::<(String, String)>::empty()) =~= Seq::<
                (Seq<char>, Seq<char>),
            >::empty());
            assert(r@ =~~= spec_prepared(self.base_spec(), self.auth_spec(), self.user_agent_spec(), Method::Post, "/v1/auth/introspect"@, Seq::empty(),
                None, Some(Seq::<char>::empty())));
        }
        r
    }

    /// Introspect the API key this client authenticates with; sends an empty body.
    pub fn auth_introspect(&self) -> (r: Result<ApiKeyIntrospection, Error>)
        ensures
            r is Err ==> call_error(r->Err_0),
    {
        let req = self.auth_introspect_request();
        let pair = match fetch_document(&self.agent, &req) {
            Ok(p) => p,
            Err(e) => {
                return Err(e);
            },
        };
        let (doc, raw) = pair;
        match ApiKeyIntrospection::of_json(&doc) {
            Some(x) => Ok(x),
            None => Err(Error::Transport(TransportError::Decode(raw))),
        }
    }

    /// The outbound request of [`Client::create_download_token`].
    pub fn create_download_token_request(&self, body: &DownloadTokenRequest) -> (r: PreparedRequest)
        ensures
            r@ == spec_prepared(self.base_spec(), self.auth_spec(), self.user_agent_spec(), Method::Post, "/v1/downloads/token"@, Seq::empty(), None, Some(
                crate::json::ser(download_token_json(*body)),
            )),
    {
        let text = json_to_string(&body.to_json());
        let r = self.prepare(Method::Post, "/v1/downloads/token", Vec::new(), None, Some(text));
        proof {
            assert(pairs_view(Seq::<(String, String)>::empty()) =~= Seq::<
                (Seq<char>, Seq<char>),
            >::empty());
            assert(r@ =~~= spec_prepared(self.base_spec(), self.auth_spec(), self.user_agent_spec(), Method::Post, "/v1/downloads/token"@, Seq::empty(), None,
                Some(crate::json::ser(download_token_json(*body)))));
        }
        r
    }

    /// Create a download token for an artifact.
    pub fn create_download_token(&self, body: &DownloadTokenRequest) -> (r: Result<DownloadTokenResponse, Error>)
        ensures
            r is Err ==> call_error(r->Err_0),
    {
        let req = self.create_download_token_request(body);
        let pair = match fetch_document(&self.agent, &req) {
            Ok(p) => p,
            Err(e) => {
                return Err(e);
            },
        };
        let (doc, raw) = pair;
        match DownloadTokenResponse::of_json(&doc) {
            Some(x) => Ok(x),
            None => Err(Error::Transport(TransportError::Decode(raw))),
        }
    }

    /// The outbound request of [`Client::resolve_download_token`].
    pub fn resolve_download_token_request(&self, token: &str) -> (r: PreparedRequest)
        ensures
            r@ == spec_prepared(self.base_spec(), self.auth_spec(), self.user_agent_spec(), Method::Get, "/v1/downloads/"@ + token@, Seq::empty(), None, None),
    {
        let path = path1("/v1/downloads/", token);
        let r = self.prepare(Method::Get, path.as_str(), Vec::new(), None, None);
        proof {
            assert(pairs_view(Seq::<(String, String)>::empty()) =~= Seq::<
                (Seq<char>, Seq<char>),
            >::empty());
            assert(r@ =~~= spec_prepared(self.base_spec(), self.auth_spec(), self.user_agent_spec(), Method::Get, "/v1/downloads/"@ + token@, Seq::empty(), None, None));
        }
        r
    }

    /// Resolve a download token: the expected redirect yields the object
    /// location; a redirect without one is the protocol-contract error.
    pub fn resolve_download_token(&self, token: &str) -> (r: Result<DownloadResolution, Error>)
        ensures
            r is Err ==> call_error(r->Err_0) || r->Err_0 is MissingLocationHeader,
    {
        let req = self.resolve_download_token_request(token);
        let resp = match send_prepared(&self.agent, &req) {
            Ok(x) => x,
            Err(e) => {
                return Err(e);
            },
        };
        let status = transport::response_status(&resp);
        if status == 302 {
            let location = transport::response_location(&resp);
            return classify_redirect(status, location, String::new());
        }
        let body = match transport::read_body_text(resp) {
            Ok(t) => t,
            Err(e) => {
                return Err(Error::Transport(TransportError::Network(e)));
            },
        };
        classify_redirect(status, None, body)
    }

    /// The outbound request of [`Client::list_releases`].
    pub fn list_releases_request(&self, query: &ReleaseListQuery) -> (r: PreparedRequest)
        ensures
            r@ == spec_prepared(self.base_spec(), self.auth_spec(), self.user_agent_spec(), Method::Get, "/v1/releases"@, release_query_pairs(*query), None, None),
    {
        let q = release_query(query);
        let r = self.prepare(Method::Get, "/v1/releases", q, None, None);
        proof {
            assert(r@ =~~= spec_prepared(self.base_spec(), self.auth_spec(), self.user_agent_spec(), Method::Get, "/v1/releases"@, release_query_pairs(*query), None, None));
        }
        r
    }

    /// List releases with optional filters.
    pub fn list_releases(&self, query: &ReleaseListQuery) -> (r: Result<ReleaseListResponse, Error>)
        ensures
            r is Err ==> call_error(r->Err_0),
    {
        let req = self.list_releases_request(query);
        let pair = match fetch_document(&self.agent, &req) {
            Ok(p) => p,
            Err(e) => {
                return Err(e);
            },
        };
        let (doc, raw) = pair;
        match ReleaseListResponse::of_json(&doc) {
            Some(x) => Ok(x),
            None => Err(Error::Transport(TransportError::Decode(raw))),
        }
    }

    /// The outbound request of [`Client::create_release`].
    pub fn create_release_request(&self, body: &ReleaseCreateRequest) -> (r: PreparedRequest)
        ensures
            r@ == spec_prepared(self.base_spec(), self.auth_spec(), self.user_agent_spec(), Method::Post, "/v1/releases"@, Seq::empty(), None, Some(
                crate::json::ser(release_create_json(*body)),
            )),
    {
        let text = json_to_string(&body.to_json());
        let r = self.prepare(Method::Post, "/v1/releases", Vec::new(), None, Some(text));
        proof {
            assert(pairs_view(Seq::<(String, String)>::empty()) =~= Seq::<
                (Seq<char>, Seq<char>),
            >::empty());
            assert(r@ =~~= spec_prepared(self.base_spec(), self.auth_spec(), self.user_agent_spec(), Method::Post, "/v1/releases"@, Seq::empty(), None,
                Some(crate::json::ser(release_create_json(*body)))));
        }
        r
    }

    /// Create a new release.
    pub fn create_release(&self, body: &ReleaseCreateRequest) -> (r: Result<ReleaseResponse, Error>)
        ensures
            r is Err ==> call_error(r->Err_0),
    {
        let req = self.create_release_request(body);
        let pair = match fetch_document(&self.agent, &req) {
            Ok(p) => p,
            Err(e) => {
                return Err(e);
            },
        };
        let (doc, raw) = pair;
        match ReleaseResponse::of_json(&doc) {
            Some(x) => Ok(x),
            None => Err(Error::Transport(TransportError::Decode(raw))),
        }
    }

    /// The outbound request of [`Client::delete_release`].
    pub fn delete_release_request(&self, release_id: &str) -> (r: PreparedRequest)
        ensures
            r@ == spec_prepared(self.base_spec(), self.auth_spec(), self.user_agent_spec(), Method::Delete, "/v1/releases/"@ + release_id@, Seq::empty(), None, None),
    {
        let path = path1("/v1/releases/", release_id);
        let r = self.prepare(Method::Delete, path.as_str(), Vec::new(), None, None);
        proof {
            assert(pairs_view(Seq::<(String, String)>::empty()) =~= Seq::<
                (Seq<char>, Seq<char>),
            >::empty());
            assert(r@ =~~= spec_prepared(self.base_spec(), self.auth_spec(), self.user_agent_spec(), Method::Delete, "/v1/releases/"@ + release_id@, Seq::empty(), None, None));
        }
        r
    }

    /// Delete a release; the server answers with a bodiless no-content status.
    pub fn delete_release(&self, release_id: &str) -> (r: Result<(), Error>)
        ensures
            r is Err ==> call_error(r->Err_0),
    {
        let req = self.delete_release_request(release_id);
        let resp = match send_prepared(&self.agent, &req) {
            Ok(x) => x,
            Err(e) => {
                return Err(e);
            },
        };
        let status = transport::response_status(&resp);
        if status == 204 {
            return classify_empty(status, 204, String::new());
        }
        let body = match transport::read_body_text(resp) {
            Ok(t) => t,
            Err(e) => {
                return Err(Error::Transport(TransportError::Network(e)));
            },
        };
        classify_empty(status, 204, body)
    }

    /// The outbound request of [`Client::register_release_artifact`].
    pub fn register_release_artifact_request(&self, release_id: &str, body: &ArtifactRegisterRequest) -> (r: PreparedRequest)
        ensures
            r@ == spec_prepared(self.base_spec(), self.auth_spec(), self.user_agent_spec(), Method::Post, "/v1/releases/"@ + release_id@ + "/artifacts"@, Seq::empty(), None, Some(crate::json::ser(artifact_register_json(*body)))),
    {
        let text = json_to_string(&body.to_json());
        let path = path1("/v1/releases/", release_id).concat("/artifacts");
        let r = self.prepare(Method::Post, path.as_str(), Vec::new(), None, Some(text));
        proof {
            assert(pairs_view(Seq::<(String, String)>::empty()) =~= Seq::<
                (Seq<char>, Seq<char>),
            >::empty());
            assert(r@ =~~= spec_prepared(self.base_spec(), self.auth_spec(), self.user_agent_spec(), Method::Post, "/v1/releases/"@ + release_id@ + "/artifacts"@, Seq::empty(), None, Some(crate::json::ser(artifact_register_json(*body)))));
        }
        r
    }

    /// Register a release artifact.
    pub fn register_release_artifact(&self, release_id: &str, body: &ArtifactRegisterRequest) -> (r: Result<ArtifactRegisterResponse, Error>)
        ensures
            r is Err ==> call_error(r->Err_0),
    {
        let req = self.register_release_artifact_request(release_id, body);
        let pair = match fetch_document(&self.agent, &req) {
            Ok(p) => p,
            Err(e) => {
                return Err(e);
            },
        };
        let (doc, raw) = pair;
        match ArtifactRegisterResponse::of_json(&doc) {
            Some(x) => Ok(x),
            None => Err(Error::Transport(TransportError::Decode(raw))),
        }
    }

    /// The outbound request of [`Client::presign_release_artifact_upload`].
    pub fn presign_release_artifact_upload_request(&self, release_id: &str, body: &ArtifactPresignRequest) -> (r: PreparedRequest)
        ensures
            r@ == spec_prepared(self.base_spec(), self.auth_spec(), self.user_agent_spec(), Method::Post, "/v1/releases/"@ + release_id@ + "/artifacts/presign"@, Seq::empty(), None, Some(crate::json::ser(artifact_presign_json(*body)))),
    {
        let text = json_to_string(&body.to_json());
        let path = path1("/v1/releases/", release_id).concat("/artifacts/presign");
        let r = self.prepare(Method::Post, path.as_str(), Vec::new(), None, Some(text));
        proof {
            assert(pairs_view(Seq::<(String, String)>::empty()) =~= Seq::<
                (Seq<char>, Seq<char>),
            >::empty());
            assert(r@ =~~= spec_prepared(self.base_spec(), self.auth_spec(), self.user_agent_spec(), Method::Post, "/v1/releases/"@ + release_id@ + "/artifacts/presign"@, Seq::empty(), None, Some(crate::json::ser(artifact_presign_json(*body)))));
        }
        r
    }

    /// Request a presigned upload URL for an artifact.
    pub fn presign_release_artifact_upload(&self, release_id: &str, body: &ArtifactPresignRequest) -> (r: Result<ArtifactPresignResponse, Error>)
        ensures
            r is Err ==> call_error(r->Err_0),
    {
        let req = self.presign_release_artifact_upload_request(release_id, body);
        let pair = match fetch_document(&self.agent, &req) {
            Ok(p) => p,
            Err(e) => {
                return Err(e);
            },
        };
        let (doc, raw) = pair;
        match ArtifactPresignResponse::of_json(&doc) {
            Some(x) => Ok(x),
            None => Err(Error::Transport(TransportError::Decode(raw))),
        }
    }

    /// The outbound request of [`Client::publish_release`].
    pub fn publish_release_request(&self, release_id: &str) -> (r: PreparedRequest)
        ensures
            r@ == spec_prepared(self.base_spec(), self.auth_spec(), self.user_agent_spec(), Method::Post, "/v1/releases/"@ + release_id@ + "/publish"@, Seq::empty(), None, Some(Seq::<char>::empty())),
    {
        let text = String::new();
        let path = path1("/v1/releases/", release_id).concat("/publish");
        let r = self.prepare(Method::Post, path.as_str(), Vec::new(), None, Some(text));
        proof {
            assert(pairs_view(Seq::<(String, String)>::empty()) =~= Seq::<
                (Seq<char>, Seq<char>),
            >::empty());
            assert(r@ =~~= spec_prepared(self.base_spec(), self.auth_spec(), self.user_agent_spec(), Method::Post, "/v1/releases/"@ + release_id@ + "/publish"@, Seq::empty(), None, Some(Seq::<char>::empty())));
        }
        r
    }

    /// Publish a release; sends an empty body.
    pub fn publish_release(&self, release_id: &str) -> (r: Result<ReleaseResponse, Error>)
        ensures
            r is Err ==> call_error(r->Err_0),
    {
        let req = self.publish_release_request(release_id);
        let pair = match fetch_document(&self.agent, &req) {
            Ok(p) => p,
            Err(e) => {
                return Err(e);
            },
        };
        let (doc, raw) = pair;
        match ReleaseResponse::of_json(&doc) {
            Some(x) => Ok(x),
            None => Err(Error::Transport(TransportError::Decode(raw))),
        }
    }

    /// The outbound request of [`Client::unpublish_release`].
    pub fn unpublish_release_request(&self, release_id: &str) -> (r: PreparedRequest)
        ensures
            r@ == spec_prepared(self.base_spec(), self.auth_spec(), self.user_agent_spec(), Method::Post, "/v1/releases/"@ + release_id@ + "/unpublish"@, Seq::empty(), None, Some(Seq::<char>::empty())),
    {
        let text = String::new();
        let path = path1("/v1/releases/", release_id).concat("/unpublish");
        let r = self.prepare(Method::Post, path.as_str(), Vec::new(), None, Some(text));
        proof {
            assert(pairs_view(Seq::<(String, String)>::empty()) =~= Seq::<
                (Seq<char>, Seq<char>),
            >::empty());
            assert(r@ =~~= spec_prepared(self.base_spec(), self.auth_spec(), self.user_agent_spec(), Method::Post, "/v1/releases/"@ + release_id@ + "/unpublish"@, Seq::empty(), None, Some(Seq::<char>::empty())));
        }
        r
    }

    /// Unpublish a release; sends an empty body.
    pub fn unpublish_release(&self, release_id: &str) -> (r: Result<ReleaseResponse, Error>)
        ensures
            r is Err ==> call_error(r->Err_0),
    {
        let req = self.unpublish_release_request(release_id);
        let pair = match fetch_document(&self.agent, &req) {
            Ok(p) => p,
            Err(e) => {
                return Err(e);
            },
        };
        let (doc, raw) = pair;
        match ReleaseResponse::of_json(&doc) {
            Some(x) => Ok(x),
            None => Err(Error::Transport(TransportError::Decode(raw))),
        }
    }

    /// Upload artifact bytes to a presigned URL with a raw binary PUT
    /// and no client headers; any status in the 2xx range is success.
    pub fn upload_presigned_artifact(&self, upload_url: &str, data: Vec<u8>) -> (r: Result<
        (),
        Error,
    >)
        ensures
            r is Err ==> call_error(r->Err_0),
    {
        let mut b = transport::new_request_builder();
        b = transport::builder_set_method(b, "PUT");
        b = transport::builder_set_uri(b, upload_url);
        let request = match transport::finish_request_bytes(b, data) {
            Ok(x) => x,
            Err(e) => {
                return Err(Error::Transport(TransportError::Network(e)));
            },
        };
        let resp = match transport::run_request_bytes(&self.agent, request) {
            Ok(x) => x,
            Err(e) => {
                return Err(Error::Transport(TransportError::Network(e)));
            },
        };
        let status = transport::response_status(&resp);
        if 200 <= status && status < 300 {
            return classify_upload(status, String::new());
        }
        let body = match transport::read_body_text(resp) {
            Ok(t) => t,
            Err(e) => {
                return Err(Error::Transport(TransportError::Network(e)));
            },
        };
        classify_upload(status, body)
    }
}

} // verus!
